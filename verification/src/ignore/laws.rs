//! What holds of every search: which list and which line win, what a base shuts
//! out, and that the governing pattern is determined by the lists and the path.

use vstd::prelude::*;
use crate::bytes::{lower, SLASH};
use crate::glob::{starts_with_base, Case};
use crate::ignore::search::{governing, last_match, lemma_governing, lemma_last_match, List};

verus! {

/// Adding a list changes nothing for a path that does not lie below the base of the
/// new list: the same pattern of the same list governs it as before.
pub proof fn lemma_added_list_leaves_other_paths(
    lists: Seq<List>,
    added: List,
    path: Seq<u8>,
    is_dir: Option<bool>,
    case: Case,
)
    requires
        !added.covers(path, case),
    ensures
        governing(lists.push(added), path, is_dir, case) == governing(lists, path, is_dir, case),
{
    assert(lists.push(added).drop_last() == lists);
}

/// Adding a list without patterns changes nothing for any path.
pub proof fn lemma_added_empty_list_changes_nothing(
    lists: Seq<List>,
    added: List,
    path: Seq<u8>,
    is_dir: Option<bool>,
    case: Case,
)
    requires
        added.patterns@.len() == 0,
    ensures
        governing(lists.push(added), path, is_dir, case) == governing(lists, path, is_dir, case),
{
    assert(lists.push(added).drop_last() == lists);
}

/// Without lists no path is governed.
pub proof fn lemma_no_lists_no_match(path: Seq<u8>, is_dir: Option<bool>, case: Case)
    ensures
        governing(Seq::<List>::empty(), path, is_dir, case) is None,
{
}

/// If two lists both hold a pattern that matches a path, the pattern that governs
/// the path does not come from the one that was added first: it comes from the one
/// added second or from a list added after that one. If the second is the last
/// list of all, it comes from that list and is its verdict.
pub proof fn lemma_later_list_wins(
    lists: Seq<List>,
    first: int,
    second: int,
    path: Seq<u8>,
    is_dir: Option<bool>,
    case: Case,
)
    requires
        0 <= first < second < lists.len(),
        lists[first].verdict(path, is_dir, case) is Some,
        lists[second].verdict(path, is_dir, case) is Some,
    ensures
        governing(lists, path, is_dir, case) matches Some((at, index)) && at >= second && (second
            == lists.len() - 1 ==> Some(index) == lists[second].verdict(path, is_dir, case)),
{
    lemma_governing(lists, path, is_dir, case);
}

/// If two patterns of a list both match a path below its base, the verdict of the
/// list is not the earlier of them: it is the later one or a pattern after it, and
/// the later one exactly if no pattern after it matches.
pub proof fn lemma_later_pattern_wins(
    list: List,
    earlier: int,
    later: int,
    path: Seq<u8>,
    is_dir: Option<bool>,
    case: Case,
)
    requires
        0 <= earlier < later < list.patterns@.len(),
        list.covers(path, case),
        list.patterns@[earlier].pattern@.matches(list.relative(path), is_dir, case),
        list.patterns@[later].pattern@.matches(list.relative(path), is_dir, case),
    ensures
        list.verdict(path, is_dir, case) matches Some(index) && index >= later && ((forall|k: int|
            later < k < list.patterns@.len() ==> !(#[trigger] list.patterns@[k]).pattern@.matches(
                list.relative(path),
                is_dir,
                case,
            )) ==> index == later),
{
    lemma_last_match(list.patterns@, list.relative(path), is_dir, case);
}

/// In a list whose sequence numbers grow, take two matching patterns with the
/// numbers `n1 < n2`. The sequence number of the verdict is then at least `n2`,
/// and it is `n2` if no pattern with a larger number matches.
pub proof fn lemma_later_line_wins(
    list: List,
    earlier: int,
    later: int,
    path: Seq<u8>,
    is_dir: Option<bool>,
    case: Case,
)
    requires
        list.ordered(),
        0 <= earlier < list.patterns@.len(),
        0 <= later < list.patterns@.len(),
        list.patterns@[earlier].sequence_number < list.patterns@[later].sequence_number,
        list.covers(path, case),
        list.patterns@[earlier].pattern@.matches(list.relative(path), is_dir, case),
        list.patterns@[later].pattern@.matches(list.relative(path), is_dir, case),
    ensures
        list.verdict(path, is_dir, case) matches Some(index) && list.match_at(index).sequence_number
            >= list.patterns@[later].sequence_number && ((forall|k: int|
            0 <= k < list.patterns@.len() && (#[trigger] list.patterns@[k]).sequence_number
                > list.patterns@[later].sequence_number ==> !list.patterns@[k].pattern@.matches(
                list.relative(path),
                is_dir,
                case,
            )) ==> list.match_at(index).sequence_number == list.patterns@[later].sequence_number),
{
    lemma_last_match(list.patterns@, list.relative(path), is_dir, case);
    let index = list.verdict(path, is_dir, case).unwrap();
    if index < later {
        assert(!list.patterns@[later].pattern@.matches(list.relative(path), is_dir, case));
    }
    if index > later {
        assert(list.patterns@[later].sequence_number < list.patterns@[index].sequence_number);
    }
}

/// A list with a base has no verdict on a path that does not begin with that base.
pub proof fn lemma_base_scopes_list(list: List, path: Seq<u8>, is_dir: Option<bool>, case: Case)
    requires
        list.base matches Some(base) && !starts_with_base(base@, path, case),
    ensures
        list.verdict(path, is_dir, case) is None,
{
}

/// A pattern of a list with a base never governs a path that does not begin with
/// that base, whatever other lists the search holds.
pub proof fn lemma_base_scopes_search(
    lists: Seq<List>,
    at: int,
    path: Seq<u8>,
    is_dir: Option<bool>,
    case: Case,
)
    requires
        0 <= at < lists.len(),
        lists[at].base matches Some(base) && !starts_with_base(base@, path, case),
    ensures
        governing(lists, path, is_dir, case) matches Some((from, index)) ==> from != at,
{
    lemma_governing(lists, path, is_dir, case);
}

/// Whether `path` has no empty component: it does not begin with a slash, and no
/// slash follows directly on another.
pub open spec fn no_empty_component(path: Seq<u8>) -> bool {
    forall|i: int| 0 <= i < path.len() && #[trigger] path[i] == SLASH ==> i > 0 && path[i - 1] != SLASH
}

/// A well-formed list can be asked about every path without an empty component.
pub proof fn lemma_clean_path_is_admitted(list: List, path: Seq<u8>, case: Case)
    requires
        list.wf(),
        no_empty_component(path),
    ensures
        list.admits(path, case),
{
    if list.covers(path, case) {
        match list.base {
            Some(base) => {
                let n = base@.len() as int;
                if path.len() > n {
                    assert(path.subrange(0, n)[n - 1] == path[n - 1]);
                    assert(lower(path[n - 1]) == lower(base@[n - 1]));
                    assert(path[n - 1] == SLASH);
                    assert(list.relative(path)[0] == path[n]);
                }
            },
            None => {},
        }
    }
}

/// Whether `at` is the place that the rules of precedence give: a matching pattern
/// of a list that covers the path, with no matching pattern after it in that list
/// and no verdict in any later list; or nothing, where no list has a verdict.
pub open spec fn is_governing(
    lists: Seq<List>,
    path: Seq<u8>,
    is_dir: Option<bool>,
    case: Case,
    at: Option<(int, int)>,
) -> bool {
    match at {
        Some((list, index)) => {
            &&& 0 <= list < lists.len()
            &&& 0 <= index < lists[list].patterns@.len()
            &&& lists[list].covers(path, case)
            &&& lists[list].patterns@[index].pattern@.matches(lists[list].relative(path), is_dir, case)
            &&& forall|k: int|
                index < k < lists[list].patterns@.len() ==> !(#[trigger] lists[list].patterns@[k]).pattern@.matches(
                    lists[list].relative(path),
                    is_dir,
                    case,
                )
            &&& forall|j: int|
                list < j < lists.len() ==> (#[trigger] lists[j]).verdict(path, is_dir, case) is None
        },
        None => forall|j: int|
            0 <= j < lists.len() ==> (#[trigger] lists[j]).verdict(path, is_dir, case) is None,
    }
}

/// The rules of precedence leave no choice: of the same lists and the same path
/// they give one answer, which is the one that every query returns.
pub proof fn lemma_verdict_is_determined(
    lists: Seq<List>,
    path: Seq<u8>,
    is_dir: Option<bool>,
    case: Case,
    at: Option<(int, int)>,
)
    ensures
        is_governing(lists, path, is_dir, case, at) <==> at == governing(lists, path, is_dir, case),
{
    lemma_governing(lists, path, is_dir, case);
    match governing(lists, path, is_dir, case) {
        Some((list, index)) => {
            lemma_last_match(lists[list].patterns@, lists[list].relative(path), is_dir, case);
        },
        None => {},
    }
    if is_governing(lists, path, is_dir, case, at) {
        match at {
            Some((list, index)) => {
                lemma_last_match(lists[list].patterns@, lists[list].relative(path), is_dir, case);
                let found = last_match(lists[list].patterns@, lists[list].relative(path), is_dir, case);
                assert(found is Some);
                assert(found == Some(index)) by {
                    let other = found.unwrap();
                    if other < index {
                        assert(!lists[list].patterns@[index].pattern@.matches(
                            lists[list].relative(path),
                            is_dir,
                            case,
                        ));
                    }
                    if other > index {
                        assert(!lists[list].patterns@[other].pattern@.matches(
                            lists[list].relative(path),
                            is_dir,
                            case,
                        ));
                    }
                }
                assert(lists[list].verdict(path, is_dir, case) == Some(index));
            },
            None => {},
        }
    }
}

} // verus!
