//! Reading the model catalog out of the catalog page: every anchor whose
//! `href` names a top-level entry under `/library/` contributes that entry's
//! name, each name once, in ascending order.
use vstd::prelude::*;
use crate::order::{name_before, compare_names, lemma_name_before_transitive, lemma_name_before_asymmetric};

verus! {

/// The path under which the catalog page links to its models.
pub open spec fn library_prefix() -> Seq<char> {
    "/library/"@
}

/// `p` is a prefix of `s`.
pub open spec fn starts_with(s: Seq<char>, p: Seq<char>) -> bool {
    s.len() >= p.len() && s.take(p.len() as int) == p
}

/// The model that a link points at: what follows `/library/`, provided it
/// is not empty and holds no further path separator.
pub open spec fn catalog_name(href: Seq<char>) -> Option<Seq<char>> {
    if starts_with(href, library_prefix()) {
        let rest = href.skip(library_prefix().len() as int);
        if rest.len() > 0 && !rest.contains('/') {
            Some(rest)
        } else {
            None
        }
    } else {
        None
    }
}

/// The names that the first `k` links point at.
pub open spec fn names_within(hrefs: Seq<Option<Seq<char>>>, k: int) -> Set<Seq<char>> {
    Set::new(
        |n: Seq<char>|
            exists|i: int|
                0 <= i < k && i < hrefs.len() && #[trigger] hrefs[i] is Some && catalog_name(
                    hrefs[i]->0,
                ) == Some(n),
    )
}

/// The names that a sequence of links points at (an anchor without `href`
/// points nowhere).
pub open spec fn href_names(hrefs: Seq<Option<Seq<char>>>) -> Set<Seq<char>> {
    names_within(hrefs, hrefs.len() as int)
}

/// Every name comes strictly before every later one, so none repeats.
pub open spec fn strictly_ascending(names: Seq<Seq<char>>) -> bool {
    forall|i: int, j: int| 0 <= i < j < names.len() ==> name_before(names[i], names[j])
}

/// The text of each string.
pub open spec fn names_view(v: Seq<String>) -> Seq<Seq<char>> {
    v.map_values(|s: String| s@)
}

/// `names` is the catalog that `hrefs` describe: each name they point at,
/// once, in ascending order, and nothing else.
pub open spec fn is_catalog(names: Seq<Seq<char>>, hrefs: Seq<Option<Seq<char>>>) -> bool {
    &&& strictly_ascending(names)
    &&& names.to_set() == href_names(hrefs)
}

/// The `href` of each anchor of an HTML document, in document order.
pub uninterp spec fn anchor_hrefs_of(html: Seq<char>) -> Seq<Option<Seq<char>>>;

/// Relies on scraper's `Html::parse_document`, `Selector::parse` and
/// `ElementRef::attr`: every `a` element of the parsed document, in document
/// order, with its `href` attribute where it has one. Parsing never fails:
/// malformed markup yields whatever elements the parser recovers.
#[verifier::external_body]
fn anchor_hrefs(html: &str) -> (r: Vec<Option<String>>)
    ensures
        r.deep_view() == anchor_hrefs_of(html@),
{
    let document = scraper::Html::parse_document(html);
    let anchors = scraper::Selector::parse("a").unwrap();
    document.select(&anchors).map(|a| a.attr("href").map(|h| h.to_string())).collect()
}

/// Relies on `str::strip_prefix`: the text after `prefix` when `s` starts
/// with it, and nothing otherwise.
#[verifier::external_body]
fn strip_prefix_text(s: &str, prefix: &str) -> (r: Option<String>)
    ensures
        match r {
            Some(rest) => s@ == prefix@ + rest@,
            None => !starts_with(s@, prefix@),
        },
{
    s.strip_prefix(prefix).map(|rest| rest.to_string())
}

/// Relies on `str::contains` with a `char` pattern: whether `c` occurs in `s`.
#[verifier::external_body]
fn contains_char(s: &str, c: char) -> (r: bool)
    ensures
        r == s@.contains(c),
{
    s.contains(c)
}

/// The model that one link points at, if any.
pub fn model_name(href: &str) -> (r: Option<String>)
    ensures
        r.deep_view() == catalog_name(href@),
{
    proof {
        reveal_strlit("/library/");
    }
    match strip_prefix_text(href, "/library/") {
        Some(rest) => {
            assert(href@.take(library_prefix().len() as int) =~= library_prefix());
            assert(href@.skip(library_prefix().len() as int) =~= rest@);
            if !rest.as_str().is_empty() && !contains_char(rest.as_str(), '/') {
                Some(rest)
            } else {
                None
            }
        },
        None => None,
    }
}

/// Adds `name` to an ascending list of distinct names, at its place, unless
/// it is there already.
pub fn insert_name(models: &mut Vec<String>, name: String)
    requires
        strictly_ascending(names_view(old(models)@)),
    ensures
        strictly_ascending(names_view(final(models)@)),
        names_view(final(models)@).to_set() == names_view(old(models)@).to_set().insert(name@),
{
    let ghost before = names_view(models@);
    let mut i: usize = 0;
    let mut found = false;
    loop
        invariant_except_break
            !found,
        invariant
            i <= models@.len(),
            names_view(models@) == before,
            forall|j: int| 0 <= j < i ==> name_before(before[j], name@),
        ensures
            i <= models@.len(),
            names_view(models@) == before,
            forall|j: int| 0 <= j < i ==> name_before(before[j], name@),
            found ==> i < models@.len() && before[i as int] == name@,
            !found && i < models@.len() ==> name_before(name@, before[i as int]),
        decreases models@.len() - i,
    {
        if i == models.len() {
            break;
        }
        let c = compare_names(models[i].as_str(), name.as_str());
        if c == 0 {
            found = true;
            break;
        }
        if c > 0 {
            break;
        }
        i = i + 1;
    }
    if found {
        assert(names_view(models@).to_set() =~= before.to_set().insert(name@)) by {
            assert(before.contains(name@));
        }
        return;
    }
    let ghost x = name@;
    models.insert(i, name);
    let ghost after = names_view(models@);
    assert(after =~= before.insert(i as int, x));
    assert forall|p: int, q: int| 0 <= p < q < after.len() implies name_before(after[p], after[q]) by {
        if p == i && q > i + 1 {
            lemma_name_before_transitive(x, before[i as int], before[q - 1]);
        }
    }
    assert(after.to_set() =~= before.to_set().insert(x)) by {
        assert forall|n: Seq<char>| after.contains(n) implies #[trigger] before.to_set().insert(x).contains(n) by {
            let k = choose|k: int| 0 <= k < after.len() && after[k] == n;
            if k < i {
                assert(before[k] == n);
            } else if k > i {
                assert(before[k - 1] == n);
            }
        }
        assert forall|n: Seq<char>| #[trigger] before.to_set().insert(x).contains(n) implies after.contains(n) by {
            if n == x {
                assert(after[i as int] == n);
            } else {
                let k = choose|k: int| 0 <= k < before.len() && before[k] == n;
                if k < i {
                    assert(after[k] == n);
                } else {
                    assert(after[k + 1] == n);
                }
            }
        }
    }
}

/// The catalog that a sequence of links describes: the names they point at,
/// each once, in ascending order.
pub fn models_from_hrefs(hrefs: &Vec<Option<String>>) -> (r: Vec<String>)
    ensures
        is_catalog(names_view(r@), hrefs.deep_view()),
{
    let ghost links = hrefs.deep_view();
    let mut models: Vec<String> = Vec::new();
    assert(names_view(models@).to_set() =~= names_within(links, 0));
    for i in 0..hrefs.len()
        invariant
            links == hrefs.deep_view(),
            strictly_ascending(names_view(models@)),
            names_view(models@).to_set() == names_within(links, i as int),
    {
        let found = match &hrefs[i] {
            Some(href) => model_name(href.as_str()),
            None => None,
        };
        assert(links[i as int] == hrefs@[i as int].deep_view());
        match found {
            Some(name) => {
                let ghost n = name@;
                insert_name(&mut models, name);
                assert(names_within(links, i + 1) =~= names_within(links, i as int).insert(n));
            },
            None => {
                assert(names_within(links, i + 1) =~= names_within(links, i as int));
            },
        }
    }
    assert(names_within(links, hrefs.len() as int) == href_names(links));
    models
}

/// The model catalog that an HTML page lists: the names that its anchors'
/// links point at under `/library/`, each once, in ascending order. A page
/// without such links yields an empty catalog.
pub fn models_from_html(html: &str) -> (r: Vec<String>)
    ensures
        is_catalog(names_view(r@), anchor_hrefs_of(html@)),
{
    let hrefs = anchor_hrefs(html);
    models_from_hrefs(&hrefs)
}

/// A page none of whose links points at a model has an empty catalog: no
/// matching anchor is a valid state, not a failure.
pub proof fn lemma_no_model_links_empty_catalog(
    names: Seq<Seq<char>>,
    hrefs: Seq<Option<Seq<char>>>,
)
    requires
        is_catalog(names, hrefs),
        forall|i: int|
            0 <= i < hrefs.len() && #[trigger] hrefs[i] is Some ==> catalog_name(
                hrefs[i]->0,
            ) is None,
    ensures
        names.len() == 0,
{
    if names.len() > 0 {
        assert(names.to_set().contains(names[0]));
        assert(href_names(hrefs).contains(names[0]));
    }
}

/// A catalog holds each name once: no name stands at two places.
pub proof fn lemma_catalog_names_distinct(names: Seq<Seq<char>>, hrefs: Seq<Option<Seq<char>>>)
    requires
        is_catalog(names, hrefs),
    ensures
        forall|i: int, j: int| 0 <= i < j < names.len() ==> names[i] != names[j],
{
    assert forall|i: int, j: int| 0 <= i < j < names.len() implies names[i] != names[j] by {
        lemma_name_before_asymmetric(names[i], names[j]);
    }
}

/// Two strictly ascending sequences that hold the same names are the same
/// sequence.
pub proof fn lemma_ascending_same_names_equal(s1: Seq<Seq<char>>, s2: Seq<Seq<char>>)
    requires
        strictly_ascending(s1),
        strictly_ascending(s2),
        s1.to_set() == s2.to_set(),
    ensures
        s1 == s2,
    decreases s1.len(),
{
    if s1.len() == 0 {
        if s2.len() > 0 {
            assert(s2.to_set().contains(s2[0]));
        }
        assert(s1 =~= s2);
    } else if s2.len() == 0 {
        assert(s1.to_set().contains(s1[0]));
    } else {
        assert(s1.to_set().contains(s1[0]));
        assert(s2.to_set().contains(s2[0]));
        let i = choose|i: int| 0 <= i < s1.len() && s1[i] == s2[0];
        let j = choose|j: int| 0 <= j < s2.len() && s2[j] == s1[0];
        if i > 0 && j > 0 {
            assert(name_before(s1[0], s1[i]));
            assert(name_before(s2[0], s2[j]));
            lemma_name_before_asymmetric(s1[0], s2[0]);
        }
        assert(s1[0] == s2[0]);
        let t1 = s1.drop_first();
        let t2 = s2.drop_first();
        assert forall|x: Seq<char>| t1.to_set().contains(x) implies #[trigger] t2.to_set().contains(x) by {
            let a = choose|a: int| 0 <= a < t1.len() && t1[a] == x;
            assert(s1[a + 1] == x);
            assert(s2.to_set().contains(x));
            let b = choose|b: int| 0 <= b < s2.len() && s2[b] == x;
            lemma_name_before_asymmetric(s1[0], x);
            assert(b != 0);
            assert(t2[b - 1] == x);
        }
        assert forall|x: Seq<char>| t2.to_set().contains(x) implies #[trigger] t1.to_set().contains(x) by {
            let a = choose|a: int| 0 <= a < t2.len() && t2[a] == x;
            assert(s2[a + 1] == x);
            assert(s1.to_set().contains(x));
            let b = choose|b: int| 0 <= b < s1.len() && s1[b] == x;
            lemma_name_before_asymmetric(s2[0], x);
            assert(b != 0);
            assert(t1[b - 1] == x);
        }
        assert(t1.to_set() =~= t2.to_set());
        lemma_ascending_same_names_equal(t1, t2);
        assert forall|k: int| 0 <= k < s1.len() implies s1[k] == s2[k] by {
            if k > 0 {
                assert(s1[k] == t1[k - 1]);
                assert(s2[k] == t2[k - 1]);
            }
        }
        assert(s1 =~= s2);
    }
}

/// The catalog of a sequence of links is determined by the links: any two
/// catalogs of the same links are equal.
pub proof fn lemma_catalog_unique(
    n1: Seq<Seq<char>>,
    n2: Seq<Seq<char>>,
    hrefs: Seq<Option<Seq<char>>>,
)
    requires
        is_catalog(n1, hrefs),
        is_catalog(n2, hrefs),
    ensures
        n1 == n2,
{
    lemma_ascending_same_names_equal(n1, n2);
}

} // verus!
