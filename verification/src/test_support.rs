//! Consistency of a server's tool catalogue with the methods that it dispatches.
use crate::json::{items_view, Json, JsonView};
use crate::text::{first_replaced, replace_first, same};
use vstd::prelude::*;
use vstd::string::*;

verus! {

/// Why a catalogue does not cover the methods.
#[derive(Debug)]
pub enum CatalogueMismatch {
    /// There are no tools at all.
    Empty,
    /// A tool has no string name.
    Nameless,
    /// Methods that no tool stands for.
    Missing(Vec<String>),
    /// Methods that tools stand for and that are not dispatched.
    Extra(Vec<String>),
}

/// What a [`CatalogueMismatch`] stands for.
pub enum CatalogueMismatchView {
    Empty,
    Nameless,
    Missing(Seq<Seq<char>>),
    Extra(Seq<Seq<char>>),
}

/// What a list of texts stands for.
pub open spec fn texts(list: Seq<String>) -> Seq<Seq<char>> {
    Seq::new(list.len(), |i: int| list[i]@)
}

/// What a list of string slices stands for.
pub open spec fn slices(list: Seq<&str>) -> Seq<Seq<char>> {
    Seq::new(list.len(), |i: int| list[i]@)
}

impl View for CatalogueMismatch {
    type V = CatalogueMismatchView;

    open spec fn view(&self) -> CatalogueMismatchView {
        match self {
            CatalogueMismatch::Empty => CatalogueMismatchView::Empty,
            CatalogueMismatch::Nameless => CatalogueMismatchView::Nameless,
            CatalogueMismatch::Missing(m) => CatalogueMismatchView::Missing(texts(m@)),
            CatalogueMismatch::Extra(m) => CatalogueMismatchView::Extra(texts(m@)),
        }
    }
}

/// The method that a tool stands for: its name with the first underscore turned
/// into a dot.
pub open spec fn tool_method(tool: JsonView) -> Option<Seq<char>> {
    match tool.text_at("name"@) {
        Some(name) => Some(first_replaced(name, '_', '.')),
        None => None,
    }
}

/// Every tool has a string name.
pub open spec fn all_named(catalogue: Seq<JsonView>) -> bool {
    forall|i: int| 0 <= i < catalogue.len() ==> tool_method(#[trigger] catalogue[i]) is Some
}

/// The methods that the tools stand for.
pub open spec fn catalogue_methods(catalogue: Seq<JsonView>) -> Seq<Seq<char>> {
    Seq::new(catalogue.len(), |i: int| tool_method(catalogue[i])->0)
}

/// The texts of `list` that `other` does not hold, each once, in the order in which
/// they first occur.
pub open spec fn lacking(list: Seq<Seq<char>>, other: Seq<Seq<char>>) -> Seq<Seq<char>>
    decreases list.len(),
{
    if list.len() == 0 {
        Seq::empty()
    } else {
        let done = lacking(list.drop_last(), other);
        if other.contains(list.last()) || done.contains(list.last()) {
            done
        } else {
            done.push(list.last())
        }
    }
}

/// The verdict on a catalogue: it must not be empty, every tool must have a name,
/// every method must have a tool, and every tool must stand for a method.
pub open spec fn verdict(catalogue: Seq<JsonView>, methods: Seq<Seq<char>>) -> Result<
    (),
    CatalogueMismatchView,
> {
    if catalogue.len() == 0 {
        Err(CatalogueMismatchView::Empty)
    } else if !all_named(catalogue) {
        Err(CatalogueMismatchView::Nameless)
    } else {
        let known = catalogue_methods(catalogue);
        if lacking(methods, known).len() > 0 {
            Err(CatalogueMismatchView::Missing(lacking(methods, known)))
        } else if lacking(known, methods).len() > 0 {
            Err(CatalogueMismatchView::Extra(lacking(known, methods)))
        } else {
            Ok(())
        }
    }
}

/// True exactly when `list` holds `text`.
fn holds(list: &Vec<String>, text: &str) -> (r: bool)
    ensures
        r == texts(list@).contains(text@),
{
    let mut i: usize = 0;
    while i < list.len()
        invariant
            i <= list@.len(),
            forall|j: int| 0 <= j < i ==> #[trigger] texts(list@)[j] != text@,
        decreases list@.len() - i,
    {
        if same(list[i].as_str(), text) {
            assert(texts(list@)[i as int] == text@);
            return true;
        }
        i += 1;
    }
    false
}

/// The texts of `list` that `other` does not hold.
fn without(list: &Vec<String>, other: &Vec<String>) -> (r: Vec<String>)
    ensures
        texts(r@) == lacking(texts(list@), texts(other@)),
{
    let ghost all = texts(list@);
    let mut out: Vec<String> = Vec::new();
    let mut i: usize = 0;
    assert(all.take(0) =~= Seq::empty());
    assert(texts(out@) =~= lacking(all.take(0), texts(other@)));
    while i < list.len()
        invariant
            i <= list@.len(),
            all == texts(list@),
            texts(out@) == lacking(all.take(i as int), texts(other@)),
        decreases list@.len() - i,
    {
        assert(all.take(i + 1).drop_last() == all.take(i as int));
        assert(all.take(i + 1).last() == list@[i as int]@);
        if !holds(other, list[i].as_str()) && !holds(&out, list[i].as_str()) {
            let ghost done = texts(out@);
            out.push(list[i].clone());
            assert(texts(out@) =~= done.push(list@[i as int]@));
        }
        i += 1;
    }
    assert(all.take(i as int) == all);
    out
}

/// Checks that a tool catalogue is non-empty and exactly covers `methods`.
///
/// `methods` are dispatch names (`torii.ingest_raw`); catalogue entries use tool
/// names (`torii_ingest_raw`). Only the first underscore is the separator.
pub fn assert_catalogue_matches(catalogue: &Vec<Json>, methods: &Vec<&str>) -> (r: Result<
    (),
    CatalogueMismatch,
>)
    ensures
        match r {
            Ok(_) => verdict(items_view(catalogue@), slices(methods@)) is Ok,
            Err(e) => verdict(items_view(catalogue@), slices(methods@)) == Err::<
                (),
                CatalogueMismatchView,
            >(e@),
        },
{
    let ghost tools = items_view(catalogue@);
    if catalogue.len() == 0 {
        return Err(CatalogueMismatch::Empty);
    }
    let mut known: Vec<String> = Vec::new();
    let mut i: usize = 0;
    while i < catalogue.len()
        invariant
            i <= catalogue@.len(),
            catalogue@.len() > 0,
            tools == items_view(catalogue@),
            forall|j: int| 0 <= j < i ==> tool_method(#[trigger] tools[j]) is Some,
            texts(known@) == catalogue_methods(tools).take(i as int),
        decreases catalogue@.len() - i,
    {
        let ghost done = texts(known@);
        assert(tools[i as int] == catalogue@[i as int]@);
        match catalogue[i].str_at("name") {
            Some(name) => {
                let method: String = replace_first(name, '_', '.');
                known.push(method);
                assert(texts(known@) =~= done.push(method@));
            },
            None => {
                assert(tool_method(tools[i as int]) is None);
                return Err(CatalogueMismatch::Nameless);
            },
        }
        i += 1;
        assert(texts(known@) =~= catalogue_methods(tools).take(i as int));
    }
    assert(texts(known@) =~= catalogue_methods(tools));
    let mut wanted: Vec<String> = Vec::new();
    let mut k: usize = 0;
    while k < methods.len()
        invariant
            k <= methods@.len(),
            texts(wanted@) == slices(methods@).take(k as int),
        decreases methods@.len() - k,
    {
        let ghost done = texts(wanted@);
        wanted.push(methods[k].to_owned());
        assert(texts(wanted@) =~= done.push(methods@[k as int]@));
        k += 1;
        assert(texts(wanted@) =~= slices(methods@).take(k as int));
    }
    assert(texts(wanted@) =~= slices(methods@));
    let missing: Vec<String> = without(&wanted, &known);
    if missing.len() > 0 {
        return Err(CatalogueMismatch::Missing(missing));
    }
    let extra: Vec<String> = without(&known, &wanted);
    if extra.len() > 0 {
        return Err(CatalogueMismatch::Extra(extra));
    }
    Ok(())
}

// ── Laws of the catalogue ───────────────────────────────────────────────

/// `lacking` holds exactly the texts of the list that the other does not hold.
proof fn lemma_lacking(list: Seq<Seq<char>>, other: Seq<Seq<char>>, text: Seq<char>)
    ensures
        lacking(list, other).contains(text) <==> list.contains(text) && !other.contains(text),
    decreases list.len(),
{
    if list.len() > 0 {
        let shorter = list.drop_last();
        let done = lacking(shorter, other);
        lemma_lacking(shorter, other, text);
        lemma_lacking(shorter, other, list.last());
        if list.contains(text) && text != list.last() {
            let i = choose|i: int| 0 <= i < list.len() && list[i] == text;
            assert(shorter[i] == text);
        }
        if shorter.contains(text) {
            let i = choose|i: int| 0 <= i < shorter.len() && shorter[i] == text;
            assert(list[i] == text);
        }
        assert(list[list.len() - 1] == list.last());
        if !other.contains(list.last()) && !done.contains(list.last()) {
            let out = done.push(list.last());
            if done.contains(text) {
                let i = choose|i: int| 0 <= i < done.len() && done[i] == text;
                assert(out[i] == text);
            }
            if out.contains(text) && text != list.last() {
                let i = choose|i: int| 0 <= i < out.len() && out[i] == text;
                assert(done[i] == text);
            }
            assert(out[done.len() as int] == list.last());
        }
    }
}

/// A catalogue passes exactly when it is not empty, all its tools are named, and its
/// tools stand for the same set of methods as are dispatched.
pub proof fn law_a_catalogue_passes_when_it_covers_the_methods(
    catalogue: Seq<JsonView>,
    methods: Seq<Seq<char>>,
)
    ensures
        verdict(catalogue, methods) is Ok <==> {
            &&& catalogue.len() > 0
            &&& all_named(catalogue)
            &&& forall|m: Seq<char>| #[trigger]
                methods.contains(m) <==> catalogue_methods(catalogue).contains(m)
        },
{
    let known = catalogue_methods(catalogue);
    let missing = lacking(methods, known);
    let extra = lacking(known, methods);
    if missing.len() == 0 && extra.len() == 0 {
        assert forall|m: Seq<char>| #[trigger] methods.contains(m) <==> known.contains(m) by {
            lemma_lacking(methods, known, m);
            lemma_lacking(known, methods, m);
        }
    }
    if forall|m: Seq<char>| #[trigger] methods.contains(m) <==> known.contains(m) {
        if missing.len() > 0 {
            lemma_lacking(methods, known, missing[0]);
            assert(missing.contains(missing[0]));
        }
        if extra.len() > 0 {
            lemma_lacking(known, methods, extra[0]);
            assert(extra.contains(extra[0]));
            assert(known.contains(extra[0]));
            assert(methods.contains(extra[0]));
        }
    }
}

/// For a tool whose own name holds no underscore, the catalogue and the dispatcher
/// agree on the method that a tool name stands for.
pub proof fn law_catalogue_and_dispatch_agree(tool: Seq<char>, rest: Seq<char>)
    requires
        forall|i: int| 0 <= i < tool.len() ==> tool[i] != '_',
    ensures
        first_replaced(tool + "_"@ + rest, '_', '.') == crate::serve::method_for(
            tool,
            tool + "_"@ + rest,
        ),
{
    reveal_strlit("_");
    reveal_strlit(".");
    let name = tool + "_"@ + rest;
    crate::serve::law_tool_names_reach_their_methods(tool, rest, name);
    assert forall|j: int| 0 <= j < tool.len() implies name[j] != '_' by {
        assert(name[j] == tool[j]);
    }
    crate::text::lemma_first_index(name, '_', tool.len() as int);
    assert(first_replaced(name, '_', '.') =~= tool + "."@ + rest);
}

/// A tool stands for its name with the first underscore turned into a dot, or for its
/// name when that has none; a tool without a string name stands for nothing.
pub proof fn law_tools_stand_for_methods(tool: JsonView, before: Seq<char>, behind: Seq<char>)
    requires
        !before.contains('_'),
    ensures
        tool.text_at("name"@) == Some(before + seq!['_'] + behind) ==> tool_method(tool) == Some(
            before + seq!['.'] + behind,
        ),
        tool.text_at("name"@) == Some(before) ==> tool_method(tool) == Some(before),
        tool_method(tool) is None <==> tool.text_at("name"@) is None,
{
    crate::text::law_replace_changes_the_first(before, behind, '_', '.');
}

/// What a mismatch says: that there are no tools; that a tool has no string name; or
/// exactly the methods that no tool stands for, each once; or, when there are none of
/// those, exactly the methods that tools stand for and that are not dispatched.
pub proof fn law_mismatches_name_the_methods(
    catalogue: Seq<JsonView>,
    methods: Seq<Seq<char>>,
    m: Seq<char>,
)
    ensures
        ({
            let nameless = exists|i: int|
                0 <= i < catalogue.len() && (#[trigger] catalogue[i]).text_at("name"@) is None;
            let offered = exists|i: int|
                0 <= i < catalogue.len() && tool_method(#[trigger] catalogue[i]) == Some(m);
            let found = verdict(catalogue, methods);
            &&& found == Err::<(), CatalogueMismatchView>(CatalogueMismatchView::Empty)
                <==> catalogue.len() == 0
            &&& found == Err::<(), CatalogueMismatchView>(CatalogueMismatchView::Nameless)
                <==> catalogue.len() > 0 && nameless
            &&& found matches Err(CatalogueMismatchView::Missing(list)) ==> {
                &&& list.len() > 0
                &&& list.no_duplicates()
                &&& list.contains(m) <==> methods.contains(m) && !offered
            }
            &&& found matches Err(CatalogueMismatchView::Extra(list)) ==> {
                &&& list.len() > 0
                &&& list.no_duplicates()
                &&& list.contains(m) <==> offered && !methods.contains(m)
                &&& methods.contains(m) ==> offered
            }
            &&& found is Ok && !nameless ==> (methods.contains(m) <==> offered)
        }),
{
    let known = catalogue_methods(catalogue);
    lemma_lacking(methods, known, m);
    lemma_lacking(known, methods, m);
    lemma_lacking_once(methods, known);
    lemma_lacking_once(known, methods);
    if catalogue.len() > 0 && all_named(catalogue) {
        if known.contains(m) {
            let i = choose|i: int| 0 <= i < known.len() && known[i] == m;
            assert(tool_method(catalogue[i]) == Some(m));
        }
        if exists|i: int|
            0 <= i < catalogue.len() && tool_method(#[trigger] catalogue[i]) == Some(m) {
            let i = choose|i: int|
                0 <= i < catalogue.len() && tool_method(#[trigger] catalogue[i]) == Some(m);
            assert(known[i] == m);
        }
        if lacking(methods, known).len() == 0 && methods.contains(m) {
            assert(!lacking(methods, known).contains(m));
        }
        if lacking(known, methods).len() == 0 && known.contains(m) {
            assert(!lacking(known, methods).contains(m));
        }
    }
}

/// `lacking` holds no text twice.
proof fn lemma_lacking_once(list: Seq<Seq<char>>, other: Seq<Seq<char>>)
    ensures
        lacking(list, other).no_duplicates(),
    decreases list.len(),
{
    if list.len() > 0 {
        let done = lacking(list.drop_last(), other);
        lemma_lacking_once(list.drop_last(), other);
        if !other.contains(list.last()) && !done.contains(list.last()) {
            let out = done.push(list.last());
            assert forall|i: int, j: int|
                0 <= i < out.len() && 0 <= j < out.len() && i != j implies out[i] != out[j] by {
                if i < done.len() {
                    assert(done.contains(done[i]));
                }
                if j < done.len() {
                    assert(done.contains(done[j]));
                }
            }
        }
    }
}

/// A mismatch and lists of texts stand for what is in them, one for one.
pub proof fn law_views_keep_every_method(list: Vec<String>, given: Seq<&str>)
    ensures
        CatalogueMismatch::Empty@ == CatalogueMismatchView::Empty,
        CatalogueMismatch::Nameless@ == CatalogueMismatchView::Nameless,
        CatalogueMismatch::Missing(list)@ == CatalogueMismatchView::Missing(texts(list@)),
        CatalogueMismatch::Extra(list)@ == CatalogueMismatchView::Extra(texts(list@)),
        texts(list@).len() == list@.len(),
        forall|i: int| 0 <= i < list@.len() ==> #[trigger] texts(list@)[i] == list@[i]@,
        slices(given).len() == given.len(),
        forall|i: int| 0 <= i < given.len() ==> #[trigger] slices(given)[i] == given[i]@,
{
}

} // verus!
