//! Named items in order, a page at a time.

use crate::account_pool::AccountModel;
use crate::account_pool::AccountPool;
use crate::account_pool::ManagedAccount;
use crate::account_pool::PoolModel;
use crate::lists;
use crate::sorting;
use crate::text;
use vstd::prelude::*;

verus! {

/// The page length where none is asked for.
pub const DEFAULT_LIMIT: u32 = 25;

/// The longest page.
pub const LONGEST_PAGE: u32 = 100;

/// A page length that may not be asked for.
#[derive(Clone, Copy, Debug, PartialEq, Eq, Structural)]
pub struct PageLimitError;

impl PageLimitError {
    /// Puts the error in words.
    pub fn message(self) -> (words: &'static str)
        ensures
            words@ == "limit must be between 1 and 100"@,
    {
        "limit must be between 1 and 100"
    }
}

/// An item that is listed under a name.
pub trait Named: View + Sized {
    /// The name of an item.
    spec fn label(item: Self::V) -> Seq<char>;

    /// The name of this item.
    fn name(&self) -> (name: &str)
        ensures
            name@ == Self::label(self@),
    ;
}

impl Named for ManagedAccount {
    open spec fn label(item: AccountModel) -> Seq<char> {
        item.alias
    }

    fn name(&self) -> (name: &str) {
        self.alias.as_str()
    }
}

impl Named for AccountPool {
    open spec fn label(item: PoolModel) -> Seq<char> {
        item.name
    }

    fn name(&self) -> (name: &str) {
        self.name.as_str()
    }
}

/// One item is listed before another.
pub open spec fn listed_before<T: Named>() -> spec_fn(T::V, T::V) -> bool {
    |a: T::V, b: T::V| text::text_before(T::label(a), T::label(b))
}

/// The items by name.
pub open spec fn by_name<T: Named>(items: Seq<T::V>) -> Seq<T::V> {
    sorting::arranged(items, listed_before::<T>())
}

/// The items whose names come after a cursor.
pub open spec fn after_cursor<T: Named>(items: Seq<T::V>, cursor: Option<Seq<char>>) -> Seq<T::V> {
    items.filter(
        |item: T::V| cursor is None || text::text_before(cursor->0, T::label(item)),
    )
}

/// A page length that may be asked for.
pub open spec fn valid_limit(limit: Option<u32>) -> bool {
    limit is None || 1 <= limit->0 <= LONGEST_PAGE
}

/// The page length that is used.
pub open spec fn page_length(limit: Option<u32>) -> int {
    match limit {
        Some(limit) => limit as int,
        None => DEFAULT_LIMIT as int,
    }
}

/// The items of a page.
pub open spec fn page_items<T: Named>(
    items: Seq<T::V>,
    cursor: Option<Seq<char>>,
    limit: Option<u32>,
) -> Seq<T::V> {
    let rest = after_cursor::<T>(items, cursor);
    if rest.len() > page_length(limit) {
        rest.take(page_length(limit))
    } else {
        rest
    }
}

/// The cursor of the page after a page, if there is one.
pub open spec fn page_next<T: Named>(
    items: Seq<T::V>,
    cursor: Option<Seq<char>>,
    limit: Option<u32>,
) -> Option<Seq<char>> {
    let rest = after_cursor::<T>(items, cursor);
    if rest.len() > page_length(limit) {
        Some(T::label(rest[page_length(limit) - 1]))
    } else {
        None
    }
}

/// Checks a page length.
pub fn validate_page_limit(limit: Option<u32>) -> (checked: Result<(), PageLimitError>)
    ensures
        checked == (if valid_limit(limit) {
            Ok(())
        } else {
            Err(PageLimitError)
        }),
{
    match limit {
        Some(limit) => if 1 <= limit && limit <= LONGEST_PAGE {
            Ok(())
        } else {
            Err(PageLimitError)
        },
        None => Ok(()),
    }
}

/// Sorts items by name; items of one name keep their places.
pub fn sort_by_name<T: Named>(items: Vec<T>) -> (sorted: Vec<T>)
    ensures
        text::views(sorted@) == by_name::<T>(text::views(items@)),
{
    let ghost models = text::views(items@);
    let ghost before = listed_before::<T>();
    let mut rest: Vec<T> = items;
    let mut sorted: Vec<T> = Vec::new();
    let ghost mut done: int = 0;
    assert(models.take(0) =~= Seq::empty());
    assert(text::views(sorted@) =~= Seq::empty());
    assert(text::views(rest@) =~= models.skip(0));
    while rest.len() > 0
        invariant
            before == listed_before::<T>(),
            0 <= done <= models.len(),
            text::views(rest@) == models.skip(done),
            text::views(sorted@) == sorting::arranged(models.take(done), before),
        decreases rest.len(),
    {
        let ghost rest_before = text::views(rest@);
        let ghost list = text::views(sorted@);
        assert(rest_before.len() == rest@.len());
        let item: T = rest.remove(0);
        let ghost model = item@;
        assert(rest_before[0] == model);
        assert(models[done] == model);
        assert forall|j: int| 0 <= j < rest@.len() implies #[trigger] text::views(rest@)[j]
            == models.skip(done + 1)[j] by {
            assert(text::views(rest@)[j] == rest_before[j + 1]);
        }
        assert(text::views(rest@) =~= models.skip(done + 1));
        let mut at: usize = 0;
        while at < sorted.len() && !text::is_before(item.name(), sorted[at].name())
            invariant
                at <= sorted.len(),
                before == listed_before::<T>(),
                list == text::views(sorted@),
                model == item@,
                forall|i: int| 0 <= i < at ==> !before(model, #[trigger] list[i]),
            decreases sorted.len() - at,
        {
            at = at + 1;
        }
        proof {
            sorting::lemma_slot_is(list, model, before, at as int);
            sorting::lemma_arranged_step(models, before, done);
            done = done + 1;
        }
        sorted.insert(at, item);
        assert(text::views(sorted@) =~= list.insert(at as int, model));
    }
    assert(models.skip(done).len() == text::views(rest@).len());
    assert(models.take(done) =~= models);
    sorted
}

/// The page of named items after a cursor, and the cursor of the next page, if there is one.
pub fn page<T: Named>(data: Vec<T>, cursor: &Option<String>, limit: Option<u32>) -> (page: Result<
    (Vec<T>, Option<String>),
    PageLimitError,
>)
    ensures
        match page {
            Ok((items, next)) => {
                &&& valid_limit(limit)
                &&& text::views(items@) == page_items::<T>(
                    text::views(data@),
                    text::opt_view(*cursor),
                    limit,
                )
                &&& text::opt_view(next) == page_next::<T>(
                    text::views(data@),
                    text::opt_view(*cursor),
                    limit,
                )
            },
            Err(_) => !valid_limit(limit),
        },
{
    if let Err(error) = validate_page_limit(limit) {
        return Err(error);
    }
    let length: usize = match limit {
        Some(limit) => limit as usize,
        None => DEFAULT_LIMIT as usize,
    };
    let mut kept: Vec<T> = items_after(data, cursor);
    let ghost rest = text::views(kept@);
    if kept.len() > length {
        let next: String = kept[length - 1].name().to_owned();
        assert(rest[length - 1] == kept@[length - 1]@);
        kept.truncate(length);
        assert(text::views(kept@) =~= rest.take(length as int));
        Ok((kept, Some(next)))
    } else {
        Ok((kept, None))
    }
}

/// The items whose names come after a cursor.
fn items_after<T: Named>(data: Vec<T>, cursor: &Option<String>) -> (kept: Vec<T>)
    ensures
        text::views(kept@) == after_cursor::<T>(text::views(data@), text::opt_view(*cursor)),
{
    let ghost models = text::views(data@);
    let ghost from = text::opt_view(*cursor);
    let ghost keep = |item: T::V| from is None || text::text_before(from->0, T::label(item));
    let mut rest: Vec<T> = data;
    let mut kept: Vec<T> = Vec::new();
    let ghost mut done: int = 0;
    proof {
        reveal(Seq::filter);
        assert(models.take(0).filter(keep) =~= Seq::empty());
        assert(text::views(kept@) =~= Seq::empty());
        assert(text::views(rest@) =~= models.skip(0));
    }
    while rest.len() > 0
        invariant
            from == text::opt_view(*cursor),
            keep == (|item: T::V| from is None || text::text_before(from->0, T::label(item))),
            0 <= done <= models.len(),
            text::views(rest@) == models.skip(done),
            text::views(kept@) == models.take(done).filter(keep),
        decreases rest.len(),
    {
        let ghost rest_before = text::views(rest@);
        let ghost list = text::views(kept@);
        assert(rest_before.len() == rest@.len());
        let item: T = rest.remove(0);
        let ghost model = item@;
        assert(rest_before[0] == model);
        assert(models[done] == model);
        assert forall|j: int| 0 <= j < rest@.len() implies #[trigger] text::views(rest@)[j]
            == models.skip(done + 1)[j] by {
            assert(text::views(rest@)[j] == rest_before[j + 1]);
        }
        assert(text::views(rest@) =~= models.skip(done + 1));
        proof {
            lists::lemma_filter_step(models, keep, done);
            done = done + 1;
        }
        let after: bool = match cursor {
            Some(cursor) => text::is_before(cursor.as_str(), item.name()),
            None => true,
        };
        if after {
            kept.push(item);
            assert(text::views(kept@) =~= list.push(model));
        }
    }
    assert(models.skip(done).len() == text::views(rest@).len());
    assert(models.take(done) =~= models);
    assert(after_cursor::<T>(models, from) == models.filter(keep));
    kept
}

/// Sorting by name loses nothing, adds nothing, and puts no item after one that it precedes.
pub proof fn law_sorted_by_name<T: Named>(items: Seq<T::V>)
    ensures
        by_name::<T>(items).to_multiset() == items.to_multiset(),
        by_name::<T>(items).len() == items.len(),
        sorting::ordered(by_name::<T>(items), listed_before::<T>()),
{
    let before = listed_before::<T>();
    sorting::lemma_arranged_is_permutation(items, before);
    assert forall|a: T::V| !(#[trigger] before(a, a)) by {
        text::lemma_before_irreflexive(vstd::utf8::encode_utf8(T::label(a)));
    }
    assert forall|a: T::V, b: T::V, c: T::V|
        #![trigger before(a, b), before(b, c)]
        before(a, b) && before(b, c) implies before(a, c) by {
        text::lemma_before_transitive(
            vstd::utf8::encode_utf8(T::label(a)),
            vstd::utf8::encode_utf8(T::label(b)),
            vstd::utf8::encode_utf8(T::label(c)),
        );
    }
    sorting::lemma_arranged_is_ordered(items, before);
}

/// The names of a list rise from each item to the next.
pub open spec fn rising<T: Named>(items: Seq<T::V>) -> bool {
    forall|i: int, j: int|
        #![trigger items[i], items[j]]
        0 <= i < j < items.len() ==> text::text_before(T::label(items[i]), T::label(items[j]))
}

/// Items of different names are in rising order once they are sorted.
pub proof fn law_sorted_names_rise<T: Named>(items: Seq<T::V>)
    requires
        forall|i: int, j: int|
            #![trigger items[i], items[j]]
            0 <= i < j < items.len() ==> T::label(items[i]) != T::label(items[j]),
    ensures
        rising::<T>(by_name::<T>(items)),
{
    let sorted = by_name::<T>(items);
    let before = listed_before::<T>();
    law_sorted_by_name::<T>(items);
    lemma_arranged_names_differ::<T>(items);
    assert forall|i: int, j: int|
        #![trigger sorted[i], sorted[j]]
        0 <= i < j < sorted.len() implies text::text_before(
        T::label(sorted[i]),
        T::label(sorted[j]),
    ) by {
        let a = T::label(sorted[i]);
        let b = T::label(sorted[j]);
        assert(!before(sorted[j], sorted[i]));
        if vstd::utf8::encode_utf8(a) == vstd::utf8::encode_utf8(b) {
            text::lemma_encoding_injective(a, b);
        }
        text::lemma_before_total(vstd::utf8::encode_utf8(a), vstd::utf8::encode_utf8(b));
    }
}

/// Sorting keeps different names different.
proof fn lemma_arranged_names_differ<T: Named>(items: Seq<T::V>)
    requires
        forall|i: int, j: int|
            #![trigger items[i], items[j]]
            0 <= i < j < items.len() ==> T::label(items[i]) != T::label(items[j]),
    ensures
        forall|i: int, j: int|
            #![trigger by_name::<T>(items)[i], by_name::<T>(items)[j]]
            0 <= i < j < by_name::<T>(items).len() ==> T::label(by_name::<T>(items)[i])
                != T::label(by_name::<T>(items)[j]),
        forall|i: int|
            0 <= i < by_name::<T>(items).len() ==> items.contains(#[trigger] by_name::<T>(items)[i]),
    decreases items.len(),
{
    let before = listed_before::<T>();
    if items.len() > 0 {
        let shorter = items.drop_last();
        let item = items.last();
        assert forall|i: int, j: int|
            #![trigger shorter[i], shorter[j]]
            0 <= i < j < shorter.len() implies T::label(shorter[i]) != T::label(shorter[j]) by {
            assert(shorter[i] == items[i] && shorter[j] == items[j]);
        }
        lemma_arranged_names_differ::<T>(shorter);
        let list = by_name::<T>(shorter);
        sorting::lemma_slot(list, item, before);
        let at = sorting::slot(list, item, before);
        let after = by_name::<T>(items);
        assert(after == list.insert(at, item));
        assert forall|i: int| 0 <= i < list.len() implies T::label(#[trigger] list[i]) != T::label(
            item,
        ) && items.contains(list[i]) by {
            assert(shorter.contains(list[i]));
            let k = choose|k: int| 0 <= k < shorter.len() && shorter[k] == list[i];
            assert(items[k] == list[i]);
            assert(items[items.len() - 1] == item);
        }
        assert forall|i: int| 0 <= i < after.len() implies items.contains(#[trigger] after[i]) by {
            if i < at {
                assert(after[i] == list[i]);
            } else if i == at {
                assert(items[items.len() - 1] == item);
            } else {
                assert(after[i] == list[i - 1]);
            }
        }
        assert forall|i: int, j: int|
            #![trigger after[i], after[j]]
            0 <= i < j < after.len() implies T::label(after[i]) != T::label(after[j]) by {
            let i0 = if i < at {
                i
            } else {
                i - 1
            };
            let j0 = if j < at {
                j
            } else {
                j - 1
            };
            if i != at {
                assert(after[i] == list[i0]);
            }
            if j != at {
                assert(after[j] == list[j0]);
            }
        }
    }
}

/// What comes after a cursor in a rising list is the rest of the list from some position.
proof fn lemma_after_is_rest<T: Named>(items: Seq<T::V>, cursor: Option<Seq<char>>) -> (from: int)
    requires
        rising::<T>(items),
    ensures
        0 <= from <= items.len(),
        after_cursor::<T>(items, cursor) == items.skip(from),
        cursor is None ==> from == 0,
        forall|i: int|
            from <= i < items.len() && cursor is Some ==> text::text_before(
                cursor->0,
                T::label(#[trigger] items[i]),
            ),
        forall|i: int|
            0 <= i < from ==> cursor is Some && !text::text_before(
                cursor->0,
                T::label(#[trigger] items[i]),
            ),
    decreases items.len(),
{
    reveal(Seq::filter);
    let keep = |item: T::V| cursor is None || text::text_before(cursor->0, T::label(item));
    if items.len() == 0 {
        assert(after_cursor::<T>(items, cursor) =~= items.skip(0));
        0
    } else {
        let shorter = items.drop_last();
        let last = items.last();
        assert forall|i: int, j: int|
            #![trigger shorter[i], shorter[j]]
            0 <= i < j < shorter.len() implies text::text_before(
            T::label(shorter[i]),
            T::label(shorter[j]),
        ) by {
            assert(shorter[i] == items[i] && shorter[j] == items[j]);
        }
        let from = lemma_after_is_rest::<T>(shorter, cursor);
        assert forall|i: int| 0 <= i < shorter.len() implies #[trigger] shorter[i] == items[i] by {}
        if keep(last) {
            assert(items.skip(from) =~= shorter.skip(from).push(last));
            assert forall|i: int| 0 <= i < from implies cursor is Some && !text::text_before(
                cursor->0,
                T::label(#[trigger] items[i]),
            ) by {
                assert(shorter[i] == items[i]);
            }
            assert forall|i: int|
                from <= i < items.len() && cursor is Some implies text::text_before(
                cursor->0,
                T::label(#[trigger] items[i]),
            ) by {
                if i < shorter.len() {
                    assert(shorter[i] == items[i]);
                }
            }
            from
        } else {
            if from < shorter.len() {
                assert(shorter[from] == items[from]);
                assert(items[items.len() - 1] == last);
                text::lemma_before_transitive(
                    vstd::utf8::encode_utf8(cursor->0),
                    vstd::utf8::encode_utf8(T::label(items[from])),
                    vstd::utf8::encode_utf8(T::label(last)),
                );
            }
            assert(items.skip(items.len() as int) =~= shorter.skip(from));
            assert forall|i: int| 0 <= i < items.len() implies cursor is Some && !text::text_before(
                cursor->0,
                T::label(#[trigger] items[i]),
            ) by {
                if i < shorter.len() {
                    assert(shorter[i] == items[i]);
                }
            }
            items.len() as int
        }
    }
}

/// Paging covers a rising list exactly: what follows a cursor is the page at that cursor, and then
/// what follows the page's own cursor. Without a next cursor the page is all that is left.
pub proof fn law_pages_cover_the_list<T: Named>(
    items: Seq<T::V>,
    cursor: Option<Seq<char>>,
    limit: Option<u32>,
)
    requires
        rising::<T>(items),
        valid_limit(limit),
    ensures
        match page_next::<T>(items, cursor, limit) {
            Some(next) => after_cursor::<T>(items, cursor) == page_items::<T>(items, cursor, limit)
                + after_cursor::<T>(items, Some(next)),
            None => after_cursor::<T>(items, cursor) == page_items::<T>(items, cursor, limit),
        },
        after_cursor::<T>(items, None) == items,
        page_items::<T>(items, cursor, limit).len() <= page_length(limit),
{
    let from = lemma_after_is_rest::<T>(items, cursor);
    let start = lemma_after_is_rest::<T>(items, None);
    assert(items.skip(0) =~= items);
    let rest = items.skip(from);
    if let Some(next) = page_next::<T>(items, cursor, limit) {
        let length = page_length(limit);
        let at = from + length - 1;
        assert(rest[length - 1] == items[at]);
        assert(next == T::label(items[at]));
        let to = lemma_after_is_rest::<T>(items, Some(next));
        if to > at + 1 {
            assert(text::text_before(T::label(items[at]), T::label(items[at + 1])));
            assert(!text::text_before(next, T::label(items[at + 1])));
        }
        if to <= at {
            assert(text::text_before(next, T::label(items[at])));
            text::lemma_before_irreflexive(vstd::utf8::encode_utf8(next));
        }
        assert(rest =~= rest.take(length) + items.skip(at + 1));
    }
}

/// A page has one to a hundred items as asked, and twenty-five where nothing is asked. It begins with
/// the first item whose name comes after the cursor, and names its last item as the next cursor
/// exactly where more items follow.
pub proof fn law_page_begins_after_the_cursor<T: Named>(
    items: Seq<T::V>,
    cursor: Option<Seq<char>>,
    limit: Option<u32>,
    i: int,
)
    requires
        valid_limit(limit),
    ensures
        ({
            let page = page_items::<T>(items, cursor, limit);
            let next = page_next::<T>(items, cursor, limit);
            let rest = items.filter(
                |item: T::V| cursor is None || text::text_before(cursor->0, T::label(item)),
            );
            let length: int = match limit {
                Some(limit) => limit as int,
                None => 25,
            };
            &&& page.len() == (if rest.len() < length {
                rest.len() as int
            } else {
                length
            })
            &&& 0 <= i < page.len() ==> page[i] == rest[i]
            &&& next is Some <==> rest.len() > length
            &&& next is Some ==> next == Some(T::label(page[page.len() - 1]))
        }),
{
}

/// A page may have one to a hundred items.
pub proof fn law_page_lengths(limit: Option<u32>)
    ensures
        valid_limit(limit) <==> (limit matches Some(limit) ==> 1 <= limit && limit <= 100),
{
}

/// Accounts are listed by alias, and pools by name.
pub proof fn law_names_of_items(account: AccountModel, pool: PoolModel)
    ensures
        <ManagedAccount as Named>::label(account) == account.alias,
        <AccountPool as Named>::label(pool) == pool.name,
{
}

/// Items are listed in the order of the bytes of their names.
pub proof fn law_items_are_listed_by_name<T: Named>(items: Seq<T::V>, i: int, j: int)
    requires
        0 <= i < j < items.len(),
    ensures
        !text::text_before(T::label(by_name::<T>(items)[j]), T::label(by_name::<T>(items)[i])),
        by_name::<T>(items).to_multiset() == items.to_multiset(),
{
    law_sorted_by_name::<T>(items);
    let sorted = by_name::<T>(items);
    assert(!listed_before::<T>()(sorted[j], sorted[i]));
}

} // verus!
