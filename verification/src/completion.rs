//! Completion candidates for a partly typed word.
//!
//! Candidates come in three groups, in this order: the keywords, the built-in
//! functions and the variables that the source declares. A name is a
//! candidate when it begins with the typed word, byte for byte.

use crate::keywords::{
    builtin_function_names, get_builtin_functions, get_keywords, keyword_names,
};
use crate::text::{each_utf8, starts_with, strings_bytes, utf8};
use vstd::prelude::*;

verus! {

/// The group that a completion candidate belongs to.
#[derive(PartialEq, Eq, Clone, Copy, Debug, Structural)]
pub enum CompletionItemKind {
    Keyword,
    Function,
    Variable,
}

/// A completion candidate.
#[derive(PartialEq, Eq, Debug)]
pub struct CompletionItem {
    pub label: String,
    pub kind: CompletionItemKind,
}

/// A completion candidate as plain mathematical data.
pub struct CompletionItemView {
    pub label: Seq<u8>,
    pub kind: CompletionItemKind,
}

impl View for CompletionItem {
    type V = CompletionItemView;

    open spec fn view(&self) -> CompletionItemView {
        CompletionItemView { label: utf8(self.label@), kind: self.kind }
    }
}

/// The views of some candidates, in the same order.
pub open spec fn item_views(items: Seq<CompletionItem>) -> Seq<CompletionItemView> {
    items.map_values(|item: CompletionItem| item@)
}

/// Those of `names` that begin with `prefix`, in their order, as candidates of
/// one kind.
pub open spec fn matching(
    names: Seq<Seq<u8>>,
    prefix: Seq<u8>,
    kind: CompletionItemKind,
) -> Seq<CompletionItemView> {
    names.filter(|name: Seq<u8>| prefix.is_prefix_of(name)).map_values(
        |name: Seq<u8>| CompletionItemView { label: name, kind },
    )
}

/// All the candidates for `prefix`: keywords, then built-in functions, then
/// the given variables.
pub open spec fn candidates(prefix: Seq<u8>, variables: Seq<Seq<u8>>) -> Seq<CompletionItemView> {
    matching(each_utf8(keyword_names()), prefix, CompletionItemKind::Keyword) + matching(
        each_utf8(builtin_function_names()),
        prefix,
        CompletionItemKind::Function,
    ) + matching(variables, prefix, CompletionItemKind::Variable)
}

/// The answer to a completion request: the candidates, or nothing at all where
/// there is none.
pub open spec fn completion(prefix: Seq<u8>, variables: Seq<Seq<u8>>) -> Option<
    Seq<CompletionItemView>,
> {
    let found = candidates(prefix, variables);
    if found.len() == 0 {
        None
    } else {
        Some(found)
    }
}

/// An answer as plain mathematical data.
pub open spec fn completion_view(answer: Option<Vec<CompletionItem>>) -> Option<
    Seq<CompletionItemView>,
> {
    match answer {
        Some(items) => Some(item_views(items@)),
        None => None,
    }
}

/// Taking one more name into account adds it to the matching ones exactly
/// when it begins with the prefix.
pub proof fn lemma_matching_step(
    names: Seq<Seq<u8>>,
    n: int,
    prefix: Seq<u8>,
    kind: CompletionItemKind,
)
    requires
        0 <= n < names.len(),
    ensures
        matching(names.take(n + 1), prefix, kind) == if prefix.is_prefix_of(names[n]) {
            matching(names.take(n), prefix, kind).push(
                CompletionItemView { label: names[n], kind },
            )
        } else {
            matching(names.take(n), prefix, kind)
        },
{
    reveal(Seq::filter);
    assert(names.take(n + 1).drop_last() =~= names.take(n));
}

/// Every candidate begins with the typed word.
pub proof fn lemma_candidates_begin_with_prefix(prefix: Seq<u8>, variables: Seq<Seq<u8>>)
    ensures
        forall|i: int|
            0 <= i < candidates(prefix, variables).len() ==> prefix.is_prefix_of(
                (#[trigger] candidates(prefix, variables)[i]).label,
            ),
{
}

/// Every variable that begins with the typed word is a candidate.
pub proof fn lemma_matching_variables_are_candidates(
    prefix: Seq<u8>,
    variables: Seq<Seq<u8>>,
    i: int,
)
    requires
        0 <= i < variables.len(),
        prefix.is_prefix_of(variables[i]),
    ensures
        candidates(prefix, variables).contains(
            CompletionItemView { label: variables[i], kind: CompletionItemKind::Variable },
        ),
        completion(prefix, variables) is Some,
{
    let keep = |name: Seq<u8>| prefix.is_prefix_of(name);
    let kept = variables.filter(keep);
    let third = matching(variables, prefix, CompletionItemKind::Variable);
    let before = matching(each_utf8(keyword_names()), prefix, CompletionItemKind::Keyword)
        + matching(each_utf8(builtin_function_names()), prefix, CompletionItemKind::Function);
    variables.lemma_filter_contains(keep, i);
    let k = choose|k: int| 0 <= k < kept.len() && kept[k] == variables[i];
    assert(candidates(prefix, variables)[before.len() + k] == third[k]);
}

/// The empty word has every keyword, every built-in function and every
/// variable as its candidates.
pub proof fn lemma_empty_prefix_offers_all(variables: Seq<Seq<u8>>)
    ensures
        candidates(Seq::empty(), variables).len() == keyword_names().len()
            + builtin_function_names().len() + variables.len(),
{
    lemma_all_match_the_empty_prefix(each_utf8(keyword_names()), CompletionItemKind::Keyword);
    lemma_all_match_the_empty_prefix(
        each_utf8(builtin_function_names()),
        CompletionItemKind::Function,
    );
    lemma_all_match_the_empty_prefix(variables, CompletionItemKind::Variable);
}

/// All names begin with the empty word.
proof fn lemma_all_match_the_empty_prefix(names: Seq<Seq<u8>>, kind: CompletionItemKind)
    ensures
        matching(names, Seq::empty(), kind).len() == names.len(),
    decreases names.len(),
{
    reveal(Seq::filter);
    if names.len() > 0 {
        lemma_all_match_the_empty_prefix(names.drop_last(), kind);
    }
}

/// Appends to `items` those of `names` that begin with `prefix`.
fn add_matching(
    items: &mut Vec<CompletionItem>,
    names: Vec<String>,
    prefix: &str,
    kind: CompletionItemKind,
)
    ensures
        item_views(final(items)@) == item_views(old(items)@) + matching(
            strings_bytes(names@),
            utf8(prefix@),
            kind,
        ),
{
    let ghost all = strings_bytes(names@);
    let ghost start = item_views(items@);
    let count = names.len();
    let mut index: usize = 0;
    while index < count
        invariant
            index <= count,
            count == names@.len(),
            all == strings_bytes(names@),
            item_views(items@) == start + matching(all.take(index as int), utf8(prefix@), kind),
        decreases count - index,
    {
        let ghost before = item_views(items@);
        proof {
            lemma_matching_step(all, index as int, utf8(prefix@), kind);
        }
        if starts_with(names[index].as_str(), prefix) {
            items.push(CompletionItem { label: names[index].clone(), kind });
            assert(item_views(items@) =~= before.push(
                CompletionItemView { label: all[index as int], kind },
            ));
        }
        index += 1;
    }
    proof {
        assert(all.take(count as int) =~= all);
    }
}

/// The completion candidates for a typed word, given the variables in scope.
pub fn get_completion_items(word_or_part_of_it: String, variables: Vec<String>) -> (answer: Option<
    Vec<CompletionItem>,
>)
    ensures
        completion_view(answer) == completion(
            utf8(word_or_part_of_it@),
            strings_bytes(variables@),
        ),
{
    let prefix = word_or_part_of_it.as_str();
    let mut completion_items: Vec<CompletionItem> = Vec::new();
    let keywords = get_keywords();
    let builtin_functions = get_builtin_functions();
    proof {
        assert(strings_bytes(keywords@) =~= each_utf8(keyword_names()));
        assert(strings_bytes(builtin_functions@) =~= each_utf8(builtin_function_names()));
    }
    add_matching(&mut completion_items, keywords, prefix, CompletionItemKind::Keyword);
    add_matching(&mut completion_items, builtin_functions, prefix, CompletionItemKind::Function);
    add_matching(&mut completion_items, variables, prefix, CompletionItemKind::Variable);
    if completion_items.is_empty() {
        None
    } else {
        Some(completion_items)
    }
}

} // verus!
