//! What the command line says of features.

use vstd::prelude::*;
use vstd::string::{StrSliceExecFns, StringExecFns};
use crate::publish::{find_features, PackageFeatures};
use crate::text::{str_eq, views};

verus! {

/// `index` is the place of the first `=` in `text`.
pub open spec fn is_first_equals(text: Seq<char>, index: int) -> bool {
    &&& 0 <= index < text.len()
    &&& text[index] == '='
    &&& forall|i: int| 0 <= i < index ==> text[i] != '='
}

/// What is said of a text without `=`.
pub open spec fn no_equals_text(text: Seq<char>) -> Seq<char> {
    "invalid KEY=value: no `=` found in `"@ + text + "`"@
}

/// Parses a single pair of key and value, written as `KEY=value`. The key
/// ends at the first `=`.
pub fn parse_key_val(s: &str) -> (parsed: Result<(String, String), String>)
    ensures
        match parsed {
            Ok((key, value)) => exists|index: int|
                is_first_equals(s@, index) && key@ == s@.subrange(0, index) && value@
                    == s@.subrange(index + 1, s@.len() as int),
            Err(message) => !s@.contains('=') && message@ == no_equals_text(s@),
        },
{
    let len = s.unicode_len();
    let mut i: usize = 0;
    while i < len
        invariant
            i <= len,
            len == s@.len(),
            forall|j: int| 0 <= j < i ==> s@[j] != '=',
        decreases len - i,
    {
        if s.get_char(i) == '=' {
            assert(is_first_equals(s@, i as int));
            let key = s.substring_char(0, i);
            let value = s.substring_char(i + 1, len);
            return Ok((key.to_owned(), value.to_owned()));
        }
        i += 1;
    }
    let mut message = String::from_str("invalid KEY=value: no `=` found in `");
    message.append(s);
    message.append("`");
    Err(message)
}

/// The values that `pairs` gives for the key `key`, in the order of `pairs`.
pub open spec fn selected(pairs: Seq<(String, String)>, key: Seq<char>) -> Seq<Seq<char>>
    decreases pairs.len(),
{
    if pairs.len() == 0 {
        Seq::empty()
    } else {
        let rest = selected(pairs.drop_last(), key);
        if pairs.last().0@ == key {
            rest.push(pairs.last().1@)
        } else {
            rest
        }
    }
}

/// No two entries of `list` name the same package.
pub open spec fn distinct_packages(list: Seq<PackageFeatures>) -> bool {
    forall|i: int, j: int|
        0 <= i < j < list.len() ==> (#[trigger] list[i]).package@ != (#[trigger] list[j]).package@
}

/// `list` holds for each package the features that `pairs` gives for it.
pub open spec fn groups(list: Seq<PackageFeatures>, pairs: Seq<(String, String)>) -> bool {
    &&& distinct_packages(list)
    &&& forall|i: int|
        0 <= i < list.len() ==> views((#[trigger] list[i]).features@) == selected(
            pairs,
            list[i].package@,
        ) && selected(pairs, list[i].package@).len() > 0
    &&& forall|key: Seq<char>|
        (#[trigger] selected(pairs, key)).len() > 0 ==> exists|i: int|
            0 <= i < list.len() && (#[trigger] list[i]).package@ == key
}

/// What `list` holds for `package` is what `pairs` gives for it.
pub open spec fn answers(
    list: Seq<PackageFeatures>,
    pairs: Seq<(String, String)>,
    package: Seq<char>,
) -> bool {
    match find_features(list, package, 0) {
        Some(features) => views(features) == selected(pairs, package),
        None => selected(pairs, package).len() == 0,
    }
}

/// An entry of a list that names each package once is the one that is found
/// for its package.
pub proof fn lemma_found(list: Seq<PackageFeatures>, index: int, from: int)
    requires
        distinct_packages(list),
        0 <= from <= index < list.len(),
    ensures
        find_features(list, list[index].package@, from) == Some(list[index].features@),
    decreases index - from,
{
    if from < index {
        lemma_found(list, index, from + 1);
    }
}

/// Where no entry names a package, none is found for it.
pub proof fn lemma_not_found(list: Seq<PackageFeatures>, package: Seq<char>, from: int)
    requires
        0 <= from,
        forall|i: int| 0 <= i < list.len() ==> (#[trigger] list[i]).package@ != package,
    ensures
        find_features(list, package, from) is None,
    decreases list.len() - from,
{
    if from < list.len() {
        lemma_not_found(list, package, from + 1);
    }
}

/// The place of the entry for `package`.
fn entry_of(list: &Vec<PackageFeatures>, package: &str) -> (found: Option<usize>)
    ensures
        match found {
            Some(index) => index < list.len() && list[index as int].package@ == package@,
            None => forall|i: int| 0 <= i < list.len() ==> (#[trigger] list[i]).package@ != package@,
        },
{
    let mut i: usize = 0;
    while i < list.len()
        invariant
            i <= list.len(),
            forall|j: int| 0 <= j < i ==> (#[trigger] list[j]).package@ != package@,
        decreases list.len() - i,
    {
        if str_eq(list[i].package.as_str(), package) {
            return Some(i);
        }
        i += 1;
    }
    None
}

/// Collects the features that the command line gives, as pairs of package
/// and feature, into one entry for each package. The entries come in the
/// order in which the packages are first named, the features of each in the
/// order in which they are given.
pub fn group_features(pairs: Vec<(String, String)>) -> (list: Vec<PackageFeatures>)
    ensures
        groups(list@, pairs@),
        forall|package: Seq<char>| #[trigger] answers(list@, pairs@, package),
{
    let mut list: Vec<PackageFeatures> = Vec::new();
    let ghost all = pairs@;
    for pair in iter: pairs.into_iter()
        invariant
            iter.seq() == all,
            groups(list@, all.take(iter.index() as int)),
    {
        let ghost done = iter.index() as int;
        let ghost before = list@;
        let (package, feature) = pair;
        proof {
            assert(all.take(done + 1).drop_last() == all.take(done));
            assert(all.take(done + 1).last() == all[done]);
        }
        match entry_of(&list, package.as_str()) {
            Some(index) => {
                let ghost old_features = list[index as int].features@;
                let mut entry = list.remove(index);
                entry.features.push(feature);
                assert(views(entry.features@) =~= views(old_features).push(feature@));
                list.insert(index, entry);
                proof {
                    before.remove_ensures(index as int);
                    before.remove(index as int).insert_ensures(index as int, entry);
                    assert(list@.len() == before.len());
                    assert forall|i: int| 0 <= i < list.len() implies (#[trigger] list[i]).package@
                        == before[i].package@ && (i != index ==> list[i] == before[i]) by {
                        if i < index {
                        } else if i > index {
                            assert(list[i] == before.remove(index as int)[i - 1]);
                        }
                    }
                    assert forall|key: Seq<char>|
                        (#[trigger] selected(all.take(done + 1), key)).len() > 0 implies exists|i: int|
                        0 <= i < list.len() && (#[trigger] list[i]).package@ == key by {
                        if key == package@ {
                            assert(list[index as int].package@ == key);
                        } else {
                            assert(selected(all.take(done), key).len() > 0);
                            let i = choose|i: int|
                                0 <= i < before.len() && (#[trigger] before[i]).package@ == key;
                            assert(list[i].package@ == key);
                        }
                    }
                }
            },
            None => {
                let mut features: Vec<String> = Vec::new();
                features.push(feature);
                assert(views(features@) =~= seq![feature@]);
                proof {
                    if selected(all.take(done), package@).len() > 0 {
                        let i = choose|i: int|
                            0 <= i < before.len() && (#[trigger] before[i]).package@ == package@;
                        assert(false);
                    }
                    assert(selected(all.take(done), package@) =~= Seq::<Seq<char>>::empty());
                }
                list.push(PackageFeatures { package, features });
                proof {
                    assert forall|key: Seq<char>|
                        (#[trigger] selected(all.take(done + 1), key)).len() > 0 implies exists|i: int|
                        0 <= i < list.len() && (#[trigger] list[i]).package@ == key by {
                        if key == package@ {
                            assert(list[list.len() - 1].package@ == key);
                        } else {
                            assert(selected(all.take(done), key).len() > 0);
                            let i = choose|i: int|
                                0 <= i < before.len() && (#[trigger] before[i]).package@ == key;
                            assert(list[i].package@ == key);
                        }
                    }
                }
            },
        }
    }
    proof {
        assert(all.take(all.len() as int) == all);
        assert forall|package: Seq<char>| #[trigger] answers(list@, pairs@, package) by {
            if exists|i: int| 0 <= i < list.len() && (#[trigger] list[i]).package@ == package {
                let i = choose|i: int| 0 <= i < list.len() && (#[trigger] list[i]).package@ == package;
                lemma_found(list@, i, 0);
            } else {
                lemma_not_found(list@, package, 0);
            }
        }
    }
    list
}

} // verus!
