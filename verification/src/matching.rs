//! Which source file a test case belongs to, and which test cases belong to a source file.
use crate::paths::{path_of, stem_text, stem_text_of};
use crate::seqs::lemma_filter_next;
use crate::text::{chars_of, starts_with, text_of};
use std::path::{Path, PathBuf};
use vstd::prelude::*;

verus! {

/// Whether a stem is known and begins with `prefix`.
pub open spec fn has_prefix(stem: Option<Seq<char>>, prefix: Seq<char>) -> bool {
    stem matches Some(s) && prefix.is_prefix_of(s)
}

/// Whether the `j`-th stem, and no other, begins with `prefix`.
pub open spec fn singled_out(stems: Seq<Option<Seq<char>>>, prefix: Seq<char>, j: int) -> bool {
    &&& 0 <= j < stems.len()
    &&& has_prefix(stems[j], prefix)
    &&& forall|k: int| 0 <= k < stems.len() && k != j ==> !has_prefix(#[trigger] stems[k], prefix)
}

/// Whether the first `n` characters of a name are compared with the stems. They are taken byte by
/// byte from the front, up to the first byte that is not ASCII.
pub open spec fn compared(name: Seq<char>, n: int) -> bool {
    &&& 1 <= n <= name.len()
    &&& forall|i: int| 0 <= i < n ==> (#[trigger] name[i]) <= '\u{7f}'
}

/// Whether the `j`-th stem is the one that a name belongs to: some beginning of the name is a
/// beginning of this stem and of no other.
pub open spec fn belongs(stems: Seq<Option<Seq<char>>>, name: Seq<char>, j: int) -> bool {
    exists|n: int| #[trigger] compared(name, n) && singled_out(stems, name.take(n), j)
}

/// A name belongs to a stem where some beginning of the name, of ASCII characters and of any length
/// but none, is a beginning of that stem and of no other.
pub proof fn law_belongs(stems: Seq<Option<Seq<char>>>, name: Seq<char>, n: int, j: int)
    requires
        1 <= n <= name.len(),
        forall|i: int| 0 <= i < n ==> (#[trigger] name[i]) <= '\u{7f}',
        0 <= j < stems.len(),
        stems[j] is Some,
        name.take(n).is_prefix_of(stems[j]->0),
        forall|k: int|
            0 <= k < stems.len() && k != j && (#[trigger] stems[k]) is Some ==> !name.take(
                n,
            ).is_prefix_of(stems[k]->0),
    ensures
        belongs(stems, name, j),
{
    assert(compared(name, n));
    assert(singled_out(stems, name.take(n), j));
}

/// A name that belongs to a stem has a beginning, of ASCII characters, that is a beginning of that
/// stem and of no other.
pub proof fn law_belongs_by_a_beginning(stems: Seq<Option<Seq<char>>>, name: Seq<char>, j: int) -> (n:
    int)
    requires
        belongs(stems, name, j),
    ensures
        1 <= n <= name.len(),
        forall|i: int| 0 <= i < n ==> (#[trigger] name[i]) <= '\u{7f}',
        0 <= j < stems.len(),
        stems[j] is Some,
        name.take(n).is_prefix_of(stems[j]->0),
        forall|k: int|
            0 <= k < stems.len() && k != j && (#[trigger] stems[k]) is Some ==> !name.take(
                n,
            ).is_prefix_of(stems[k]->0),
{
    let n = choose|n: int| #[trigger] compared(name, n) && singled_out(stems, name.take(n), j);
    assert forall|k: int|
        0 <= k < stems.len() && k != j && (#[trigger] stems[k]) is Some implies !name.take(
        n,
    ).is_prefix_of(stems[k]->0) by {
        assert(!has_prefix(stems[k], name.take(n)));
    }
    n
}

/// What the stems of a sequence hold.
pub open spec fn stem_texts(stems: Seq<Option<String>>) -> Seq<Option<Seq<char>>> {
    stems.map_values(|s: Option<String>| text_of(s))
}

/// A stem that begins with a longer beginning of a name begins with a shorter one.
proof fn lemma_shorter_prefix(stem: Option<Seq<char>>, name: Seq<char>, m: int, n: int)
    requires
        0 <= m <= n <= name.len(),
        has_prefix(stem, name.take(n)),
    ensures
        has_prefix(stem, name.take(m)),
{
    let s = stem->0;
    assert(name.take(n) == s.subrange(0, n));
    assert forall|i: int| 0 <= i < m implies name.take(m)[i] == s.subrange(0, m)[i] by {
        assert(name.take(n)[i] == s.subrange(0, n)[i]);
    }
    assert(name.take(m) =~= s.subrange(0, m));
}

/// A name belongs to one stem at most.
pub proof fn law_one_source(stems: Seq<Option<Seq<char>>>, name: Seq<char>, i: int, j: int)
    requires
        belongs(stems, name, i),
        belongs(stems, name, j),
    ensures
        i == j,
{
    let m = choose|m: int| #[trigger] compared(name, m) && singled_out(stems, name.take(m), i);
    let n = choose|n: int| #[trigger] compared(name, n) && singled_out(stems, name.take(n), j);
    if m <= n {
        lemma_shorter_prefix(stems[j], name, m, n);
    } else {
        lemma_shorter_prefix(stems[i], name, n, m);
    }
}

/// A name that begins with the whole of a stem belongs to it, unless another stem begins with that
/// stem too.
pub proof fn law_named_after(stems: Seq<Option<Seq<char>>>, name: Seq<char>, j: int)
    requires
        0 <= j < stems.len(),
        stems[j] matches Some(stem) && stem.is_prefix_of(name) && compared(name, stem.len() as int),
        forall|k: int|
            0 <= k < stems.len() && k != j ==> !has_prefix(#[trigger] stems[k], stems[j]->0),
    ensures
        belongs(stems, name, j),
{
    let stem = stems[j]->0;
    assert(name.take(stem.len() as int) == stem);
    assert(stem.is_prefix_of(stem));
    assert(singled_out(stems, name.take(stem.len() as int), j));
}

/// Whether `chars` holds the characters of the stems.
spec fn same_stems(chars: Seq<Option<Vec<char>>>, stems: Seq<Option<Seq<char>>>) -> bool {
    &&& chars.len() == stems.len()
    &&& forall|j: int|
        0 <= j < chars.len() ==> match #[trigger] chars[j] {
            Some(c) => stems[j] == Some(c@),
            None => stems[j] is None,
        }
}

/// The characters of the stems.
fn stem_chars(stems: &Vec<Option<String>>) -> (r: Vec<Option<Vec<char>>>)
    ensures
        same_stems(r@, stem_texts(stems@)),
{
    let mut out: Vec<Option<Vec<char>>> = Vec::new();
    let mut i: usize = 0;
    while i < stems.len()
        invariant
            i <= stems@.len(),
            out@.len() == i,
            forall|j: int|
                0 <= j < i ==> match #[trigger] out@[j] {
                    Some(chars) => stem_texts(stems@)[j] == Some(chars@),
                    None => stem_texts(stems@)[j] is None,
                },
        decreases stems@.len() - i,
    {
        let chars = match &stems[i] {
            Some(stem) => Some(chars_of(stem.as_str())),
            None => None,
        };
        out.push(chars);
        i += 1;
    }
    out
}

/// Whether places of stems stand in ascending order, with every place among them whose stem begins
/// with `prefix`.
spec fn covers(places: Seq<usize>, stems: Seq<Option<Seq<char>>>, prefix: Seq<char>) -> bool {
    &&& stems.len() <= usize::MAX
    &&& forall|a: int| 0 <= a < places.len() ==> (#[trigger] places[a]) < stems.len()
    &&& forall|a: int, b: int|
        0 <= a < b < places.len() ==> (#[trigger] places[a]) < (#[trigger] places[b])
    &&& forall|j: int|
        0 <= j < stems.len() && has_prefix(#[trigger] stems[j], prefix) ==> places.contains(
            j as usize,
        )
}

/// The places below `len`, in ascending order.
fn places_below(len: usize) -> (r: Vec<usize>)
    ensures
        r@.len() == len,
        forall|a: int| 0 <= a < len ==> r@[a] == a,
{
    let mut places: Vec<usize> = Vec::new();
    let mut i: usize = 0;
    while i < len
        invariant
            i <= len,
            places@.len() == i,
            forall|a: int| 0 <= a < i ==> places@[a] == a,
        decreases len - i,
    {
        places.push(i);
        i += 1;
    }
    places
}

/// Keeps the places whose stems begin with the first `n` characters of the name.
fn narrow(
    places: &Vec<usize>,
    chars: &Vec<Option<Vec<char>>>,
    Ghost(stems): Ghost<Seq<Option<Seq<char>>>>,
    name: &Vec<char>,
    n: usize,
) -> (r: Vec<usize>)
    requires
        1 <= n <= name@.len(),
        same_stems(chars@, stems),
        covers(places@, stems, name@.take(n - 1)),
    ensures
        covers(r@, stems, name@.take(n as int)),
        forall|a: int|
            0 <= a < r@.len() ==> has_prefix(
                stems[(#[trigger] r@[a]) as int],
                name@.take(n as int),
            ),
{
    let mut kept: Vec<usize> = Vec::new();
    let mut i: usize = 0;
    let ghost prefix = name@.take(n as int);
    while i < places.len()
        invariant
            1 <= n <= name@.len(),
            prefix == name@.take(n as int),
            same_stems(chars@, stems),
            covers(places@, stems, name@.take(n - 1)),
            i <= places@.len(),
            forall|a: int|
                0 <= a < kept@.len() ==> {
                    &&& (#[trigger] kept@[a]) < stems.len()
                    &&& has_prefix(stems[kept@[a] as int], prefix)
                    &&& i < places@.len() ==> kept@[a] < places@[i as int]
                },
            forall|a: int, b: int|
                0 <= a < b < kept@.len() ==> (#[trigger] kept@[a]) < (#[trigger] kept@[b]),
            forall|b: int|
                0 <= b < i && has_prefix(stems[(#[trigger] places@[b]) as int], prefix)
                    ==> kept@.contains(places@[b]),
        decreases places@.len() - i,
    {
        let j = places[i];
        let keep = match &chars[j] {
            Some(stem) => starts_with(stem, name, n),
            None => false,
        };
        let ghost old_kept = kept@;
        if keep {
            kept.push(j);
        }
        proof {
            assert(chars@[j as int] is Some ==> stems[j as int] is Some);
            assert(keep == has_prefix(stems[j as int], prefix));
            assert forall|b: int|
                0 <= b < i + 1 && has_prefix(
                    stems[(#[trigger] places@[b]) as int],
                    prefix,
                ) implies kept@.contains(places@[b]) by {
                if b < i {
                    let a = choose|a: int| 0 <= a < old_kept.len() && old_kept[a] == places@[b];
                    assert(kept@[a] == places@[b]);
                } else {
                    assert(kept@.last() == j);
                }
            }
        }
        i += 1;
    }
    proof {
        assert forall|j: int|
            0 <= j < stems.len() && has_prefix(
                #[trigger] stems[j],
                prefix,
            ) implies kept@.contains(j as usize) by {
            lemma_shorter_prefix(stems[j], name@, n - 1, n as int);
            let b = choose|b: int| 0 <= b < places@.len() && places@[b] == j as usize;
            assert(has_prefix(stems[places@[b] as int], prefix));
        }
    }
    kept
}

/// Where at most one stem begins with the first `n` characters of a name, and more than one with
/// any fewer, a name belongs to that stem and to no other.
proof fn lemma_decided(stems: Seq<Option<Seq<char>>>, name: Seq<char>, n: int, places: Seq<usize>)
    requires
        compared(name, n),
        covers(places, stems, name.take(n)),
        forall|a: int|
            0 <= a < places.len() ==> has_prefix(stems[(#[trigger] places[a]) as int], name.take(n)),
        places.len() <= 1,
        forall|m: int, j: int| 1 <= m < n ==> !(#[trigger] singled_out(stems, name.take(m), j)),
    ensures
        places.len() == 1 ==> belongs(stems, name, places[0] as int),
        places.len() == 0 ==> forall|j: int| !belongs(stems, name, j),
{
    if places.len() == 1 {
        let j = places[0] as int;
        assert forall|k: int| 0 <= k < stems.len() && k != j implies !has_prefix(
            #[trigger] stems[k],
            name.take(n),
        ) by {
            if has_prefix(stems[k], name.take(n)) {
                assert(places.contains(k as usize));
            }
        }
        assert(singled_out(stems, name.take(n), j));
    } else {
        assert forall|j: int| !belongs(stems, name, j) by {
            if belongs(stems, name, j) {
                let m = choose|m: int|
                    #[trigger] compared(name, m) && singled_out(stems, name.take(m), j);
                if m >= n {
                    lemma_shorter_prefix(stems[j], name, n, m);
                    assert(places.contains(j as usize));
                }
            }
        }
    }
}

/// The place of the stem that a name belongs to, if it belongs to one.
pub fn pick_source(stems: &Vec<Option<String>>, name: &str) -> (r: Option<usize>)
    ensures
        match r {
            Some(j) => belongs(stem_texts(stems@), name@, j as int),
            None => forall|j: int| !belongs(stem_texts(stems@), name@, j),
        },
{
    let ghost all = stem_texts(stems@);
    let chars = stem_chars(stems);
    let name_chars = chars_of(name);
    let mut places = places_below(chars.len());
    let mut taken: usize = 0;
    proof {
        assert forall|j: int|
            0 <= j < all.len() && has_prefix(#[trigger] all[j], name@.take(0)) implies places@.contains(
            j as usize,
        ) by {
            assert(places@[j] == j as usize);
        }
    }
    while taken < name_chars.len() && name_chars[taken] <= '\u{7f}'
        invariant
            all == stem_texts(stems@),
            name_chars@ == name@,
            taken <= name@.len(),
            same_stems(chars@, all),
            covers(places@, all, name@.take(taken as int)),
            forall|i: int| 0 <= i < taken ==> (#[trigger] name@[i]) <= '\u{7f}',
            forall|m: int, j: int|
                1 <= m <= taken ==> !(#[trigger] singled_out(all, name@.take(m), j)),
        decreases name@.len() - taken,
    {
        taken += 1;
        places = narrow(&places, &chars, Ghost(all), &name_chars, taken);
        if places.len() <= 1 {
            proof {
                lemma_decided(all, name@, taken as int, places@);
            }
            return places.pop();
        }
        proof {
            let prefix = name@.take(taken as int);
            assert forall|j: int| !(#[trigger] singled_out(all, prefix, j)) by {
                assert(places@[0] < places@[1]);
                assert(has_prefix(all[places@[0] as int], prefix));
                assert(has_prefix(all[places@[1] as int], prefix));
            }
        }
    }
    proof {
        assert forall|j: int| !belongs(all, name@, j) by {
            if belongs(all, name@, j) {
                let m = choose|m: int|
                    #[trigger] compared(name@, m) && singled_out(all, name@.take(m), j);
                if m > taken {
                    assert(name@[taken as int] <= '\u{7f}');
                }
            }
        }
    }
    None
}

/// The stems of the file names of paths.
pub open spec fn path_stems(paths: Seq<PathBuf>) -> Seq<Option<Seq<char>>> {
    paths.map_values(|p: PathBuf| stem_text_of(path_of(p)))
}

/// Whether a test case belongs to the `j`-th of the source files.
pub open spec fn is_source_of(sources: Seq<PathBuf>, j: int, test_case: &Path) -> bool {
    stem_text_of(test_case) matches Some(name) && belongs(
        path_stems(sources),
        name,
        j,
    )
}

/// Whether a test case file belongs to a source file: its stem begins with that of the source.
pub open spec fn is_case_of(test_case: &Path, source: &Path) -> bool {
    stem_text_of(source) matches Some(prefix) && has_prefix(
        stem_text_of(test_case),
        prefix,
    )
}

/// The test cases of a source are those whose stems agree with its stem in every character that this
/// one has.
pub proof fn law_case_of(test_case: &Path, source: &Path)
    ensures
        is_case_of(test_case, source) <==> {
            &&& stem_text_of(source) is Some
            &&& stem_text_of(test_case) is Some
            &&& stem_text_of(source)->0.len() <= stem_text_of(test_case)->0.len()
            &&& forall|i: int|
                0 <= i < stem_text_of(source)->0.len() ==> (#[trigger] stem_text_of(source)->0[i])
                    == stem_text_of(test_case)->0[i]
        },
{
    if stem_text_of(source) is Some && stem_text_of(test_case) is Some {
        let prefix = stem_text_of(source)->0;
        let stem = stem_text_of(test_case)->0;
        if prefix.len() <= stem.len() {
            let start = stem.subrange(0, prefix.len() as int);
            if is_case_of(test_case, source) {
                assert forall|i: int| 0 <= i < prefix.len() implies (#[trigger] prefix[i])
                    == stem[i] by {
                    assert(start[i] == stem[i]);
                }
            } else if forall|i: int| 0 <= i < prefix.len() ==> (#[trigger] prefix[i]) == stem[i] {
                assert(prefix =~= start);
            }
        }
    }
}

/// Whether a test case is named after the `j`-th of the source files and no other source is: the
/// stem of the test case begins with that of the source, which is ASCII, and no other source has a
/// stem that begins so.
pub open spec fn is_named_after(sources: Seq<PathBuf>, j: int, test_case: &Path) -> bool {
    &&& 0 <= j < sources.len()
    &&& is_case_of(test_case, path_of(sources[j]))
    &&& forall|i: int|
        0 <= i < stem_text_of(path_of(sources[j]))->0.len() ==> (#[trigger] stem_text_of(
            path_of(sources[j]),
        )->0[i]) <= '\u{7f}'
    &&& forall|k: int|
        0 <= k < sources.len() && k != j ==> !is_case_of(
            path_of(#[trigger] sources[k]),
            path_of(sources[j]),
        )
}

/// A test case that is named after a source file, whose stem is not empty, belongs to that source.
pub proof fn law_case_belongs_to_its_source(sources: Seq<PathBuf>, j: int, test_case: &Path)
    requires
        is_named_after(sources, j, test_case),
        stem_text_of(path_of(sources[j]))->0.len() > 0,
    ensures
        is_source_of(sources, j, test_case),
{
    let stems = path_stems(sources);
    let stem = stem_text_of(path_of(sources[j]))->0;
    let name = stem_text_of(test_case)->0;
    assert forall|k: int| 0 <= k < stems.len() && k != j implies !has_prefix(
        #[trigger] stems[k],
        stems[j]->0,
    ) by {
        assert(!is_case_of(path_of(sources[k]), path_of(sources[j])));
    }
    assert forall|i: int| 0 <= i < stem.len() implies (#[trigger] name[i]) <= '\u{7f}' by {
        assert(name.subrange(0, stem.len() as int)[i] == stem[i]);
    }
    law_named_after(stems, name, j);
}

/// A test case whose stem is ASCII and begins with the whole stem of a source, which is not empty,
/// belongs to that source, where no other source has a stem that begins with this one.
pub proof fn law_whole_stem(
    sources: Seq<PathBuf>,
    j: int,
    test_case: &Path,
    stem: Seq<char>,
    name: Seq<char>,
)
    requires
        0 <= j < sources.len(),
        stem_text_of(path_of(sources[j])) == Some(stem),
        stem_text_of(test_case) == Some(name),
        stem.len() > 0,
        stem.is_prefix_of(name),
        forall|i: int| 0 <= i < name.len() ==> (#[trigger] name[i]) <= '\u{7f}',
        forall|k: int|
            0 <= k < sources.len() && k != j && stem_text_of(path_of(#[trigger] sources[k])) is Some
                ==> !stem.is_prefix_of(stem_text_of(path_of(sources[k]))->0),
    ensures
        is_source_of(sources, j, test_case),
{
    let stems = path_stems(sources);
    assert(stems[j] == Some(stem));
    assert(name.take(stem.len() as int) == stem);
    assert(stem.is_prefix_of(stem));
    assert forall|k: int|
        0 <= k < stems.len() && k != j && (#[trigger] stems[k]) is Some implies !name.take(
        stem.len() as int,
    ).is_prefix_of(stems[k]->0) by {
        assert(stems[k] == stem_text_of(path_of(sources[k])));
    }
    law_belongs(stems, name, stem.len() as int, j);
}

/// A test case belongs to a source where some beginning of its stem, of ASCII characters and of any
/// length but none, is a beginning of the stem of that source and of no other.
pub proof fn law_common_beginning(sources: Seq<PathBuf>, j: int, test_case: &Path, n: int)
    requires
        0 <= j < sources.len(),
        stem_text_of(path_of(sources[j])) is Some,
        stem_text_of(test_case) is Some,
        1 <= n <= stem_text_of(test_case)->0.len(),
        forall|i: int| 0 <= i < n ==> (#[trigger] stem_text_of(test_case)->0[i]) <= '\u{7f}',
        stem_text_of(test_case)->0.take(n).is_prefix_of(stem_text_of(path_of(sources[j]))->0),
        forall|k: int|
            0 <= k < sources.len() && k != j && stem_text_of(path_of(#[trigger] sources[k])) is Some
                ==> !stem_text_of(test_case)->0.take(n).is_prefix_of(
                stem_text_of(path_of(sources[k]))->0,
            ),
    ensures
        is_source_of(sources, j, test_case),
{
    let stems = path_stems(sources);
    let name = stem_text_of(test_case)->0;
    assert(stems[j] == stem_text_of(path_of(sources[j])));
    assert forall|k: int|
        0 <= k < stems.len() && k != j && (#[trigger] stems[k]) is Some implies !name.take(
        n,
    ).is_prefix_of(stems[k]->0) by {
        assert(stems[k] == stem_text_of(path_of(sources[k])));
    }
    law_belongs(stems, name, n, j);
}

/// A test case that belongs to a source has a stem some beginning of which, of ASCII characters, is a
/// beginning of the stem of that source and of no other.
pub proof fn law_source_has_the_beginning(sources: Seq<PathBuf>, j: int, test_case: &Path) -> (n: int)
    requires
        is_source_of(sources, j, test_case),
    ensures
        0 <= j < sources.len(),
        stem_text_of(path_of(sources[j])) is Some,
        stem_text_of(test_case) is Some,
        1 <= n <= stem_text_of(test_case)->0.len(),
        forall|i: int| 0 <= i < n ==> (#[trigger] stem_text_of(test_case)->0[i]) <= '\u{7f}',
        stem_text_of(test_case)->0.take(n).is_prefix_of(stem_text_of(path_of(sources[j]))->0),
        forall|k: int|
            0 <= k < sources.len() && k != j && stem_text_of(path_of(#[trigger] sources[k])) is Some
                ==> !stem_text_of(test_case)->0.take(n).is_prefix_of(
                stem_text_of(path_of(sources[k]))->0,
            ),
{
    let stems = path_stems(sources);
    let name = stem_text_of(test_case)->0;
    let n = law_belongs_by_a_beginning(stems, name, j);
    assert(stems[j] == stem_text_of(path_of(sources[j])));
    assert forall|k: int|
        0 <= k < sources.len() && k != j && stem_text_of(
            path_of(#[trigger] sources[k]),
        ) is Some implies !name.take(n).is_prefix_of(stem_text_of(path_of(sources[k]))->0) by {
        assert(stems[k] == stem_text_of(path_of(sources[k])));
    }
    n
}

/// The stems of the file names of paths.
fn stems_of(paths: &Vec<PathBuf>) -> (r: Vec<Option<String>>)
    ensures
        stem_texts(r@) == path_stems(paths@),
        forall|i: int|
            0 <= i < paths@.len() ==> match #[trigger] path_stems(paths@)[i] {
                Some(stem) => stem.len() > 0,
                None => true,
            },
{
    let mut stems: Vec<Option<String>> = Vec::new();
    let mut i: usize = 0;
    while i < paths.len()
        invariant
            i <= paths@.len(),
            stem_texts(stems@) == path_stems(paths@).take(i as int),
            forall|j: int|
                0 <= j < i ==> match #[trigger] path_stems(paths@)[j] {
                    Some(stem) => stem.len() > 0,
                    None => true,
                },
        decreases paths@.len() - i,
    {
        let stem = stem_text(paths[i].as_path());
        proof {
            assert(stem_texts(stems@.push(stem)) == stem_texts(stems@).push(
                text_of(stem),
            ));
            assert(path_stems(paths@).take(i + 1) == path_stems(paths@).take(i as int).push(
                path_stems(paths@)[i as int],
            ));
        }
        stems.push(stem);
        i += 1;
    }
    assert(path_stems(paths@).take(paths@.len() as int) == path_stems(paths@));
    stems
}

/// The source file that a test case belongs to, if it belongs to one: the only source whose stem
/// begins as the stem of the test case begins. A test case that is named after one source alone
/// belongs to that one.
pub fn filter_source_file(sources: Vec<PathBuf>, test_case: &Path) -> (r: Option<PathBuf>)
    ensures
        match r {
            Some(source) => exists|j: int|
                #[trigger] is_source_of(sources@, j, test_case) && source == sources@[j],
            None => forall|j: int| !is_source_of(sources@, j, test_case),
        },
        forall|j: int| #[trigger] is_named_after(sources@, j, test_case) ==> r == Some(sources@[j]),
        stem_text_of(test_case) matches Some(name) ==> forall|j: int|
            0 <= j < sources@.len() && stem_text_of(path_of(#[trigger] sources@[j])) is Some
                && stem_text_of(path_of(sources@[j]))->0.is_prefix_of(name) && (forall|i: int|
                0 <= i < name.len() ==> (#[trigger] name[i]) <= '\u{7f}') && (forall|k: int|
                0 <= k < sources@.len() && k != j && stem_text_of(
                    path_of(#[trigger] sources@[k]),
                ) is Some ==> !stem_text_of(path_of(sources@[j]))->0.is_prefix_of(
                    stem_text_of(path_of(sources@[k]))->0,
                )) ==> r == Some(sources@[j]),
        r matches Some(source) ==> sources@.contains(source) && stem_text_of(test_case) is Some
            && stem_text_of(path_of(source)) is Some && stem_text_of(test_case)->0.len() > 0
            && stem_text_of(path_of(source))->0.len() > 0 && stem_text_of(test_case)->0[0]
            == stem_text_of(path_of(source))->0[0],
{
    let stems = stems_of(&sources);
    let name = match stem_text(test_case) {
        Some(name) => name,
        None => {
            return None;
        },
    };
    proof {
        assert forall|j: int| #[trigger] is_named_after(
            sources@,
            j,
            test_case,
        ) implies is_source_of(sources@, j, test_case) by {
            assert(path_stems(sources@)[j] == stem_text_of(path_of(sources@[j])));
            law_case_belongs_to_its_source(sources@, j, test_case);
        }
        assert forall|j: int|
            0 <= j < sources@.len() && stem_text_of(path_of(#[trigger] sources@[j])) is Some
                && stem_text_of(path_of(sources@[j]))->0.is_prefix_of(name@) && (forall|i: int|
                0 <= i < name@.len() ==> (#[trigger] name@[i]) <= '\u{7f}') && (forall|k: int|
                0 <= k < sources@.len() && k != j && stem_text_of(
                    path_of(#[trigger] sources@[k]),
                ) is Some ==> !stem_text_of(path_of(sources@[j]))->0.is_prefix_of(
                    stem_text_of(path_of(sources@[k]))->0,
                )) implies is_named_after(sources@, j, test_case) by {
            let stem = stem_text_of(path_of(sources@[j]))->0;
            assert forall|i: int| 0 <= i < stem.len() implies (#[trigger] stem[i]) <= '\u{7f}' by {
                assert(name@.subrange(0, stem.len() as int)[i] == name@[i]);
            }
        }
    }
    match pick_source(&stems, name.as_str()) {
        Some(j) => {
            proof {
                assert(is_source_of(sources@, j as int, test_case));
                assert forall|k: int| #[trigger] is_named_after(sources@, k, test_case) implies k
                    == j by {
                    law_one_source(path_stems(sources@), name@, j as int, k);
                }
            }
            proof {
                let n = law_belongs_by_a_beginning(path_stems(sources@), name@, j as int);
                let stem = stem_text_of(path_of(sources@[j as int]))->0;
                assert(path_stems(sources@)[j as int] == Some(stem));
                assert(name@.take(n)[0] == stem.subrange(0, n)[0]);
                assert(sources@.contains(sources@[j as int]));
            }
            let mut sources = sources;
            Some(sources.swap_remove(j))
        },
        None => None,
    }
}

/// Whether a stem is known and begins with `prefix`.
pub fn begins_with(stem: &Option<String>, prefix: &str) -> (r: bool)
    ensures
        r == has_prefix(text_of(*stem), prefix@),
{
    match stem {
        Some(stem) => {
            let prefix_chars = chars_of(prefix);
            assert(prefix@.take(prefix@.len() as int) == prefix@);
            starts_with(&chars_of(stem.as_str()), &prefix_chars, prefix_chars.len())
        },
        None => false,
    }
}

/// The test cases that belong to a source file, in the order in which they are given: those whose
/// stems begin with the stem of the source.
pub fn filter_test_cases(test_cases: Vec<PathBuf>, source: &Path) -> (r: Vec<PathBuf>)
    ensures
        r@ == test_cases@.filter(|p: PathBuf| is_case_of(path_of(p), source)),
        r@ == test_cases@.filter(
            |p: PathBuf|
                stem_text_of(source) is Some && stem_text_of(path_of(p)) is Some && stem_text_of(
                    source,
                )->0.is_prefix_of(stem_text_of(path_of(p))->0),
        ),
{
    let ghost belongs_here = |p: PathBuf| is_case_of(path_of(p), source);
    let mut kept: Vec<PathBuf> = Vec::new();
    let prefix = stem_text(source);
    reveal(Seq::filter);
    for path in it: test_cases
        invariant
            it.seq() == test_cases@,
            belongs_here == (|p: PathBuf| is_case_of(path_of(p), source)),
            text_of(prefix) == stem_text_of(source),
            kept@ == test_cases@.take(it.index() as int).filter(belongs_here),
    {
        let keep = match &prefix {
            Some(prefix) => begins_with(&stem_text(path.as_path()), prefix.as_str()),
            None => false,
        };
        proof {
            lemma_filter_next(test_cases@, belongs_here, it.index() as int);
        }
        if keep {
            kept.push(path);
        }
    }
    assert(test_cases@.take(test_cases@.len() as int) == test_cases@);
    proof {
        let begins = |p: PathBuf|
            stem_text_of(source) is Some && stem_text_of(path_of(p)) is Some && stem_text_of(
                source,
            )->0.is_prefix_of(stem_text_of(path_of(p))->0);
        assert(begins =~= belongs_here);
    }
    kept
}

} // verus!
