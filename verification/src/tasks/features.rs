//! The features of the package that the workspace publishes.

use crate::internal::text::texts;
use crate::tasks::command::PACKAGE_NAME;
use vstd::prelude::*;
use vstd::string::*;

verus! {

/// What the workspace metadata says of a package.
#[derive(Debug)]
pub struct Package {
    pub name: String,
    /// The names of its features.
    pub features: Vec<String>,
}

/// Whether `a` comes before `b`, or is `b`, in the order of code points.
pub open spec fn text_le(a: Seq<char>, b: Seq<char>) -> bool
    decreases a.len(),
{
    if a.len() == 0 {
        true
    } else if b.len() == 0 {
        false
    } else if a[0] == b[0] {
        text_le(a.drop_first(), b.drop_first())
    } else {
        (a[0] as u32) < (b[0] as u32)
    }
}

/// Whether the texts are in order.
pub open spec fn in_order(names: Seq<Seq<char>>) -> bool {
    forall|i: int, j: int|
        0 <= i <= j < names.len() ==> text_le(#[trigger] names[i], #[trigger] names[j])
}

/// The names that are not the name of the default feature.
pub open spec fn selectable(names: Seq<Seq<char>>) -> Seq<Seq<char>> {
    names.filter(|name: Seq<char>| name != "default"@)
}

/// Whether the package at `i` is the first one with the published name.
pub open spec fn first_published(packages: Seq<Package>, i: int) -> bool {
    &&& 0 <= i < packages.len()
    &&& packages[i].name@ == PACKAGE_NAME@
    &&& forall|j: int| 0 <= j < i ==> (#[trigger] packages[j]).name@ != PACKAGE_NAME@
}

/// `<[String]>::sort` keeps the strings that are there and puts them in order. The order of
/// strings is that of their bytes, which is that of their code points.
#[verifier::external_body]
fn sort_names(names: Vec<String>) -> (sorted: Vec<String>)
    ensures
        texts(sorted@).to_multiset() == texts(names@).to_multiset(),
        in_order(texts(sorted@)),
{
    let mut names = names;
    names.sort();
    names
}

/// The features of `features` that can be selected, in their order.
fn without_default(features: &Vec<String>) -> (names: Vec<String>)
    ensures
        texts(names@) == selectable(texts(features@)),
{
    let default_feature = "default".to_owned();
    let ghost keep = |name: Seq<char>| name != "default"@;
    let ghost all = texts(features@);
    let mut names: Vec<String> = Vec::new();
    let mut i: usize = 0;
    assert(texts(names@) =~= selectable(all.take(0))) by {
        reveal(Seq::filter);
    }
    while i < features.len()
        invariant
            i <= features.len(),
            all == texts(features@),
            default_feature@ == "default"@,
            texts(names@) == selectable(all.take(i as int)),
        decreases features.len() - i,
    {
        proof {
            reveal(Seq::filter);
            assert(all.take(i + 1).drop_last() =~= all.take(i as int));
            assert(all.take(i + 1).last() == features[i as int]@);
        }
        if features[i] != default_feature {
            let ghost before = texts(names@);
            names.push(features[i].clone());
            assert(texts(names@) =~= before.push(features[i as int]@));
        }
        i += 1;
    }
    assert(all.take(i as int) =~= all);
    names
}

/// The features of the published package that can be selected one by one, in order. There are
/// none to report where the metadata does not know the package.
pub fn asyncband_features(packages: &Vec<Package>) -> (features: Option<Vec<String>>)
    ensures
        match features {
            Some(features) => exists|i: int| #[trigger]
                first_published(packages@, i) && texts(features@).to_multiset() == selectable(
                    texts(packages@[i].features@),
                ).to_multiset() && in_order(texts(features@)),
            None => forall|i: int|
                0 <= i < packages@.len() ==> (#[trigger] packages@[i]).name@ != PACKAGE_NAME@,
        },
{
    let package_name = PACKAGE_NAME.to_owned();
    let mut i: usize = 0;
    while i < packages.len()
        invariant
            i <= packages.len(),
            package_name@ == PACKAGE_NAME@,
            forall|j: int| 0 <= j < i ==> (#[trigger] packages@[j]).name@ != PACKAGE_NAME@,
        decreases packages.len() - i,
    {
        if packages[i].name == package_name {
            assert(first_published(packages@, i as int));
            return Some(sort_names(without_default(&packages[i].features)));
        }
        i += 1;
    }
    None
}

/// Texts are ordered by the first character in which they differ, and a text comes before those
/// that it begins.
pub proof fn texts_are_ordered_by_their_first_difference(a: Seq<char>, b: Seq<char>, k: int)
    requires
        0 <= k <= a.len(),
        k <= b.len(),
        forall|i: int| 0 <= i < k ==> #[trigger] a[i] == b[i],
    ensures
        k == a.len() ==> text_le(a, b),
        k == b.len() && k < a.len() ==> !text_le(a, b),
        k < a.len() && k < b.len() && a[k] != b[k] ==> (text_le(a, b) <==> (a[k] as u32) < (
        b[k] as u32)),
    decreases k,
{
    if k > 0 {
        assert(a[0] == b[0]);
        let shorter_a = a.drop_first();
        let shorter_b = b.drop_first();
        assert forall|i: int| 0 <= i < k - 1 implies #[trigger] shorter_a[i] == shorter_b[i] by {
            assert(a[i + 1] == b[i + 1]);
        }
        texts_are_ordered_by_their_first_difference(shorter_a, shorter_b, k - 1);
    }
}

/// Different characters have different code points.
proof fn lemma_code_points_differ(a: char, b: char)
    requires
        a != b,
    ensures
        a as u32 != b as u32,
{
}

/// The order of texts is total: of any two texts one comes first, both do only where they are the
/// same, and what comes before a text comes before all that follow it.
pub proof fn texts_are_in_a_total_order(a: Seq<char>, b: Seq<char>, c: Seq<char>)
    ensures
        text_le(a, a),
        text_le(a, b) || text_le(b, a),
        text_le(a, b) && text_le(b, a) ==> a == b,
        text_le(a, b) && text_le(b, c) ==> text_le(a, c),
    decreases a.len(),
{
    if a.len() > 0 {
        texts_are_in_a_total_order(a.drop_first(), a.drop_first(), a.drop_first());
        if b.len() > 0 && c.len() > 0 {
            texts_are_in_a_total_order(a.drop_first(), b.drop_first(), c.drop_first());
        } else if b.len() > 0 {
            texts_are_in_a_total_order(a.drop_first(), b.drop_first(), Seq::empty());
        }
        if b.len() > 0 && a[0] != b[0] {
            lemma_code_points_differ(a[0], b[0]);
        }
        if b.len() > 0 && text_le(a, b) && text_le(b, a) {
            assert(a =~= seq![a[0]] + a.drop_first());
            assert(b =~= seq![b[0]] + b.drop_first());
        }
    } else if b.len() == 0 {
        assert(a =~= b);
    }
}

/// Every feature but the default one can be selected, as often and in the order in which it is
/// listed: what can be selected of two lists in a row is what can be selected of the one and then
/// of the other, and a single feature can be selected unless it is the default one.
pub proof fn all_but_the_default_can_be_selected(
    names: Seq<Seq<char>>,
    more: Seq<Seq<char>>,
    name: Seq<char>,
)
    ensures
        selectable(names + more) == selectable(names) + selectable(more),
        selectable(seq![name]) == if name == "default"@ {
            Seq::<Seq<char>>::empty()
        } else {
            seq![name]
        },
        selectable(Seq::<Seq<char>>::empty()).len() == 0,
        selectable(names).contains(name) <==> names.contains(name) && name != "default"@,
{
    let keep = |name: Seq<char>| name != "default"@;
    Seq::filter_distributes_over_add(names, more, keep);
    reveal(Seq::filter);
    assert(seq![name].drop_last() =~= Seq::<Seq<char>>::empty());
    assert(seq![name].last() == name);
    assert(Seq::<Seq<char>>::empty().filter(keep) =~= Seq::<Seq<char>>::empty());
    assert(seq![name].filter(keep) =~= if name == "default"@ {
        Seq::<Seq<char>>::empty()
    } else {
        seq![name]
    });
    if selectable(names).contains(name) {
        let i = choose|i: int| 0 <= i < selectable(names).len() && selectable(names)[i] == name;
        names.lemma_filter_pred(keep, i);
        names.lemma_filter_contains_rev(keep, name);
    }
    if names.contains(name) && name != "default"@ {
        let i = choose|i: int| 0 <= i < names.len() && names[i] == name;
        names.lemma_filter_contains(keep, i);
    }
}

/// At most one package is the published one, and one is where a package has its name.
pub proof fn one_package_is_published(packages: Seq<Package>, i: int, j: int)
    ensures
        first_published(packages, i) && first_published(packages, j) ==> i == j,
        first_published(packages, i) ==> packages[i].name@ == "asyncband"@,
        first_published(packages, i) && 0 <= j < packages.len() && packages[j].name@
            == "asyncband"@ ==> i <= j,
        (0 <= j < packages.len() && packages[j].name@ == "asyncband"@) ==> exists|k: int|
            #[trigger]
            first_published(packages, k) && k <= j,
    decreases j,
{
    if 0 <= j < packages.len() && packages[j].name@ == "asyncband"@ {
        if forall|k: int| 0 <= k < j ==> (#[trigger] packages[k]).name@ != "asyncband"@ {
            assert(first_published(packages, j));
        } else {
            let k = choose|k: int| 0 <= k < j && (#[trigger] packages[k]).name@ == "asyncband"@;
            one_package_is_published(packages, i, k);
        }
    }
}

} // verus!
