//! The listing of the account's conversations: which of them a query keeps,
//! and the order in which they are shown.

use crate::text::{trim, trimmed};
use vstd::prelude::*;
use vstd::string::*;

verus! {

/// A conversation as the account lists it.
#[derive(Debug, PartialEq, Eq)]
pub struct ChatListItem {
    pub id: i64,
    pub name: String,
}

/// The values of a [`ChatListItem`].
pub struct ChatListItemView {
    pub id: i64,
    pub name: Seq<char>,
}

impl View for ChatListItem {
    type V = ChatListItemView;

    open spec fn view(&self) -> ChatListItemView {
        ChatListItemView { id: self.id, name: self.name@ }
    }
}

impl Clone for ChatListItem {
    fn clone(&self) -> (r: Self)
        ensures
            r@ == self@,
    {
        ChatListItem { id: self.id, name: self.name.clone() }
    }
}

/// The views of a list of conversations, in order.
pub open spec fn item_views(items: Seq<ChatListItem>) -> Seq<ChatListItemView> {
    items.map_values(|item: ChatListItem| item@)
}

/// A dialog of the account, reduced to what the listing reads.
#[derive(Debug, PartialEq, Eq)]
pub struct DialogEntry {
    pub id: i64,
    pub name: Option<String>,
}

/// The values of a [`DialogEntry`].
pub struct DialogEntryView {
    pub id: i64,
    pub name: Option<Seq<char>>,
}

impl View for DialogEntry {
    type V = DialogEntryView;

    open spec fn view(&self) -> DialogEntryView {
        DialogEntryView {
            id: self.id,
            name: match self.name {
                Some(name) => Some(name@),
                None => None,
            },
        }
    }
}

/// The views of a list of dialogs, in order.
pub open spec fn dialog_views(dialogs: Seq<DialogEntry>) -> Seq<DialogEntryView> {
    dialogs.map_values(|d: DialogEntry| d@)
}

/// The lowercase form of a text, as `str::to_lowercase` gives it.
pub uninterp spec fn lowercase(s: Seq<char>) -> Seq<char>;

/// `str::to_lowercase`: the lowercase equivalent of the string slice, by
/// the Unicode rules for lowercase. The result depends on the text alone.
pub assume_specification[ str::to_lowercase ](s: &str) -> (r: String)
    ensures
        r@ == lowercase(s@),
;

/// Whether `a` stands before `b` in the order of the dictionary, character
/// by character, a character counting by its code point.
pub open spec fn text_lt(a: Seq<char>, b: Seq<char>) -> bool
    decreases a.len(),
{
    if b.len() == 0 {
        false
    } else if a.len() == 0 {
        true
    } else if a.first() != b.first() {
        (a.first() as u32) < (b.first() as u32)
    } else {
        text_lt(a.drop_first(), b.drop_first())
    }
}

/// Whether `needle` stands in `hay` at place `i`.
pub open spec fn occurs_at(hay: Seq<char>, needle: Seq<char>, i: int) -> bool {
    0 <= i && i + needle.len() <= hay.len() && hay.subrange(i, i + needle.len()) == needle
}

/// Whether `needle` stands somewhere in `hay`.
pub open spec fn occurs_in(hay: Seq<char>, needle: Seq<char>) -> bool {
    exists|i: int| occurs_at(hay, needle, i)
}

/// The conversation that a dialog is listed as: its name trimmed, and empty
/// where it has none.
pub open spec fn listed(d: DialogEntryView) -> ChatListItemView {
    ChatListItemView {
        id: d.id,
        name: match d.name {
            Some(name) => trimmed(name),
            None => Seq::empty(),
        },
    }
}

/// Whether a query keeps a conversation: without a query every one is kept,
/// with one those whose name holds it, letter case set aside.
pub open spec fn query_keeps(query: Option<Seq<char>>, item: ChatListItemView) -> bool {
    match query {
        Some(q) => occurs_in(lowercase(item.name), lowercase(q)),
        None => true,
    }
}

/// Whether `a` is shown before `b`: by name, letter case set aside, and
/// among equal names by id.
pub open spec fn shown_before(a: ChatListItemView, b: ChatListItemView) -> bool {
    text_lt(lowercase(a.name), lowercase(b.name)) || (lowercase(a.name) == lowercase(b.name)
        && a.id < b.id)
}

/// Where a conversation goes into a listing that is in order: behind the
/// last one that is not to be shown after it.
pub open spec fn place_of(shown: Seq<ChatListItemView>, item: ChatListItemView) -> nat
    decreases shown.len(),
{
    if shown.len() == 0 || !shown_before(item, shown.last()) {
        shown.len()
    } else {
        place_of(shown.drop_last(), item)
    }
}

/// The conversations that the query keeps, each put in its place as it
/// comes.
pub open spec fn listing(dialogs: Seq<DialogEntryView>, query: Option<Seq<char>>) -> Seq<
    ChatListItemView,
>
    decreases dialogs.len(),
{
    if dialogs.len() == 0 {
        Seq::empty()
    } else {
        let shown = listing(dialogs.drop_last(), query);
        let item = listed(dialogs.last());
        if query_keeps(query, item) {
            shown.insert(place_of(shown, item) as int, item)
        } else {
            shown
        }
    }
}

/// Whether no conversation is shown before one that is to be shown before
/// it.
pub open spec fn in_order(shown: Seq<ChatListItemView>) -> bool {
    forall|i: int, j: int| 0 <= i < j < shown.len() ==> !shown_before(shown[j], shown[i])
}

/// The conversations of the dialogs that the query keeps, in the order of
/// the dialogs.
pub open spec fn kept_by(dialogs: Seq<DialogEntryView>, query: Option<Seq<char>>) -> Seq<
    ChatListItemView,
> {
    dialogs.map_values(|d: DialogEntryView| listed(d)).filter(
        |item: ChatListItemView| query_keeps(query, item),
    )
}

/// Of two texts, one stands before the other or they are the same, and no
/// two of these hold at once.
pub proof fn lemma_text_order_total(a: Seq<char>, b: Seq<char>)
    ensures
        text_lt(a, b) || text_lt(b, a) || a == b,
        !(text_lt(a, b) && text_lt(b, a)),
        !(text_lt(a, b) && a == b),
    decreases a.len(),
{
    if a.len() > 0 && b.len() > 0 {
        vstd::utf8::char_u32_cast(a.first(), a.first() as u32);
        vstd::utf8::char_u32_cast(b.first(), b.first() as u32);
    }
    if a.len() > 0 && b.len() > 0 && a.first() == b.first() {
        lemma_text_order_total(a.drop_first(), b.drop_first());
        if a.drop_first() == b.drop_first() {
            assert(a =~= seq![a.first()] + a.drop_first());
            assert(b =~= seq![b.first()] + b.drop_first());
        }
    } else if a.len() == 0 && b.len() == 0 {
        assert(a =~= b);
    }
}

/// The order of the dictionary is transitive.
pub proof fn lemma_text_order_transitive(a: Seq<char>, b: Seq<char>, c: Seq<char>)
    requires
        text_lt(a, b),
        text_lt(b, c),
    ensures
        text_lt(a, c),
    decreases a.len(),
{
    if a.len() > 0 && a.first() == b.first() && b.first() == c.first() {
        lemma_text_order_transitive(a.drop_first(), b.drop_first(), c.drop_first());
    }
}

/// The order of showing is a strict one: nothing is shown before itself,
/// and where `a` is shown before `c`, any `b` is shown after `a` or before
/// `c`.
pub proof fn lemma_shown_before_order(a: ChatListItemView, b: ChatListItemView, c: ChatListItemView)
    ensures
        !(shown_before(a, b) && shown_before(b, a)),
        shown_before(a, c) ==> shown_before(a, b) || shown_before(b, c),
{
    let ka = lowercase(a.name);
    let kb = lowercase(b.name);
    let kc = lowercase(c.name);
    lemma_text_order_total(ka, kb);
    lemma_text_order_total(kb, kc);
    lemma_text_order_total(ka, kc);
    if shown_before(a, c) && !shown_before(a, b) {
        if text_lt(kb, ka) {
            if text_lt(ka, kc) {
                lemma_text_order_transitive(kb, ka, kc);
            }
        }
    }
}

proof fn lemma_place_of(shown: Seq<ChatListItemView>, item: ChatListItemView)
    ensures
        place_of(shown, item) <= shown.len(),
        forall|j: int| place_of(shown, item) <= j < shown.len() ==> shown_before(item, shown[j]),
        place_of(shown, item) > 0 ==> !shown_before(item, shown[place_of(shown, item) - 1]),
    decreases shown.len(),
{
    if shown.len() > 0 && shown_before(item, shown.last()) {
        let rest = shown.drop_last();
        lemma_place_of(rest, item);
        assert forall|j: int| place_of(shown, item) <= j < shown.len() implies shown_before(
            item,
            shown[j],
        ) by {
            if j < rest.len() {
                assert(rest[j] == shown[j]);
            }
        }
        if place_of(shown, item) > 0 {
            assert(rest[place_of(rest, item) - 1] == shown[place_of(shown, item) - 1]);
        }
    }
}

proof fn lemma_insert_keeps_order(shown: Seq<ChatListItemView>, item: ChatListItemView)
    requires
        in_order(shown),
    ensures
        in_order(shown.insert(place_of(shown, item) as int, item)),
{
    lemma_place_of(shown, item);
    let p = place_of(shown, item) as int;
    let after = shown.insert(p, item);
    assert forall|i: int, j: int| 0 <= i < j < after.len() implies !shown_before(
        after[j],
        after[i],
    ) by {
        if j == p {
            // after[i] stands before the place: it is not to be shown after the item
            assert(after[i] == shown[i]);
            lemma_shown_before_order(item, shown[p - 1], shown[i]);
            if i < p - 1 {
                assert(!shown_before(shown[p - 1], shown[i]));
            } else {
                lemma_shown_before_order(item, shown[i], shown[i]);
            }
        } else if i == p {
            assert(after[j] == shown[j - 1]);
            lemma_shown_before_order(item, shown[j - 1], item);
        } else {
            let oi = if i < p {
                i
            } else {
                i - 1
            };
            let oj = if j < p {
                j
            } else {
                j - 1
            };
            assert(after[i] == shown[oi]);
            assert(after[j] == shown[oj]);
        }
    }
}

/// The listing is in order, and it holds the conversations that the query
/// keeps, each as often as the dialogs hold it, and no other.
pub proof fn law_listing_sorted_and_complete(
    dialogs: Seq<DialogEntryView>,
    query: Option<Seq<char>>,
)
    ensures
        in_order(listing(dialogs, query)),
        listing(dialogs, query).to_multiset() == kept_by(dialogs, query).to_multiset(),
        listing(dialogs, query).len() <= dialogs.len(),
    decreases dialogs.len(),
{
    let all = dialogs.map_values(|d: DialogEntryView| listed(d));
    let keep = |item: ChatListItemView| query_keeps(query, item);
    reveal(Seq::filter);
    if dialogs.len() == 0 {
        assert(kept_by(dialogs, query) =~= Seq::<ChatListItemView>::empty());
    } else {
        let rest = dialogs.drop_last();
        law_listing_sorted_and_complete(rest, query);
        let shown = listing(rest, query);
        let item = listed(dialogs.last());
        let rest_all = rest.map_values(|d: DialogEntryView| listed(d));
        assert(all.drop_last() =~= rest_all);
        assert(all.last() == item);
        if query_keeps(query, item) {
            lemma_insert_keeps_order(shown, item);
            lemma_place_of(shown, item);
            vstd::seq_lib::to_multiset_insert(shown, place_of(shown, item) as int, item);
            vstd::seq_lib::to_multiset_build(rest_all.filter(keep), item);
            assert(all.filter(keep) == rest_all.filter(keep).push(item));
        } else {
            assert(all.filter(keep) == rest_all.filter(keep));
        }
    }
}

/// The characters of a string slice, one by one.
pub fn chars_of(s: &str) -> (v: Vec<char>)
    ensures
        v@ == s@,
{
    let mut v: Vec<char> = Vec::new();
    for c in it: s.chars()
        invariant
            it.seq() == s@,
            v@ == s@.take(it.index()),
    {
        v.push(c);
        assert(v@ =~= s@.take(it.index() + 1));
    }
    assert(s@.take(s@.len() as int) =~= s@);
    v
}

fn text_before(a: &Vec<char>, b: &Vec<char>) -> (r: bool)
    ensures
        r == text_lt(a@, b@),
{
    let mut i: usize = 0;
    assert(a@.skip(0) =~= a@ && b@.skip(0) =~= b@);
    while i < a.len() && i < b.len()
        invariant
            i <= a.len(),
            i <= b.len(),
            text_lt(a@, b@) == text_lt(a@.skip(i as int), b@.skip(i as int)),
        decreases a.len() - i,
    {
        assert(a@.skip(i as int).first() == a@[i as int]);
        assert(b@.skip(i as int).first() == b@[i as int]);
        if a[i] != b[i] {
            return (a[i] as u32) < (b[i] as u32);
        }
        assert(a@.skip(i as int).drop_first() =~= a@.skip(i + 1));
        assert(b@.skip(i as int).drop_first() =~= b@.skip(i + 1));
        i = i + 1;
    }
    i < b.len()
}

fn same_text(a: &Vec<char>, b: &Vec<char>) -> (r: bool)
    ensures
        r == (a@ == b@),
{
    if a.len() != b.len() {
        return false;
    }
    let mut i: usize = 0;
    while i < a.len()
        invariant
            i <= a.len(),
            a.len() == b.len(),
            forall|j: int| 0 <= j < i ==> a@[j] == b@[j],
        decreases a.len() - i,
    {
        if a[i] != b[i] {
            return false;
        }
        i = i + 1;
    }
    assert(a@ =~= b@);
    true
}

fn stands_at(hay: &Vec<char>, needle: &Vec<char>, at: usize) -> (r: bool)
    requires
        at + needle.len() <= hay.len(),
    ensures
        r == occurs_at(hay@, needle@, at as int),
{
    let mut k: usize = 0;
    while k < needle.len()
        invariant
            k <= needle.len(),
            at + needle.len() <= hay.len(),
            forall|j: int| 0 <= j < k ==> hay@[at + j] == needle@[j],
        decreases needle.len() - k,
    {
        if hay[at + k] != needle[k] {
            assert(hay@.subrange(at as int, at + needle.len())[k as int] != needle@[k as int]);
            return false;
        }
        k = k + 1;
    }
    assert(hay@.subrange(at as int, at + needle.len()) =~= needle@);
    true
}

/// Whether `needle` stands somewhere in `hay`.
pub fn holds_text(hay: &Vec<char>, needle: &Vec<char>) -> (r: bool)
    ensures
        r == occurs_in(hay@, needle@),
{
    if needle.len() > hay.len() {
        return false;
    }
    let last: usize = hay.len() - needle.len();
    let mut at: usize = 0;
    loop
        invariant
            at <= last,
            last == hay.len() - needle.len(),
            needle.len() <= hay.len(),
            forall|i: int| 0 <= i < at ==> !occurs_at(hay@, needle@, i),
        decreases last - at,
    {
        if stands_at(hay, needle, at) {
            return true;
        }
        if at == last {
            return false;
        }
        at = at + 1;
    }
}

/// The conversations of the account that the query keeps, by name and,
/// among equal names, by id. Letter case counts neither for the query nor
/// for the order.
pub fn list_chats(dialogs: &Vec<DialogEntry>, query: Option<&str>) -> (chats: Vec<ChatListItem>)
    ensures
        item_views(chats@) == listing(
            dialog_views(dialogs@),
            match query {
                Some(q) => Some(q@),
                None => None,
            },
        ),
{
    let ghost wanted: Option<Seq<char>> = match query {
        Some(q) => Some(q@),
        None => None,
    };
    let ghost views = dialog_views(dialogs@);
    let needle: Option<Vec<char>> = match query {
        Some(q) => Some(chars_of(q.to_lowercase().as_str())),
        None => None,
    };
    let mut chats: Vec<ChatListItem> = Vec::new();
    let mut keys: Vec<Vec<char>> = Vec::new();
    let mut i: usize = 0;
    assert(item_views(chats@) =~= listing(views.take(0), wanted));
    while i < dialogs.len()
        invariant
            i <= dialogs.len(),
            views == dialog_views(dialogs@),
            wanted == match query {
                Some(q) => Some(q@),
                None => None,
            },
            match needle {
                Some(n) => wanted is Some && n@ == lowercase(wanted->0),
                None => wanted is None,
            },
            keys.len() == chats.len(),
            forall|j: int|
                0 <= j < chats.len() ==> keys[j]@ == lowercase(#[trigger] chats[j].name@),
            item_views(chats@) == listing(views.take(i as int), wanted),
        decreases dialogs.len() - i,
    {
        let name: String = match &dialogs[i].name {
            Some(name) => trim(name.as_str()).to_owned(),
            None => String::new(),
        };
        let item = ChatListItem { id: dialogs[i].id, name };
        let key = chars_of(item.name.as_str().to_lowercase().as_str());
        proof {
            assert(views.take(i + 1).drop_last() =~= views.take(i as int));
            assert(views.take(i + 1).last() == dialogs[i as int]@);
            assert(item@ == listed(dialogs[i as int]@));
        }
        let keeps = match &needle {
            Some(n) => holds_text(&key, n),
            None => true,
        };
        if keeps {
            let ghost shown = item_views(chats@);
            let mut at: usize = chats.len();
            assert(shown.take(at as int) =~= shown);
            while at > 0 && (text_before(&key, &keys[at - 1]) || (same_text(&key, &keys[at - 1])
                && item.id < chats[at - 1].id))
                invariant
                    at <= chats.len(),
                    keys.len() == chats.len(),
                    key@ == lowercase(item.name@),
                    shown == item_views(chats@),
                    forall|j: int|
                        0 <= j < chats.len() ==> keys[j]@ == lowercase(#[trigger] chats[j].name@),
                    place_of(shown, item@) == place_of(shown.take(at as int), item@),
                decreases at,
            {
                proof {
                    assert(shown.take(at as int).last() == chats[at - 1]@);
                    assert(shown.take(at as int).drop_last() =~= shown.take(at - 1));
                }
                at = at - 1;
            }
            proof {
                if at > 0 {
                    assert(shown.take(at as int).last() == chats[at - 1]@);
                }
                assert(place_of(shown, item@) == at);
                assert(shown.take(shown.len() as int) =~= shown);
            }
            let ghost sofar = chats@;
            let ghost item_view = item@;
            chats.insert(at, item);
            keys.insert(at, key);
            proof {
                assert(item_views(chats@) =~= shown.insert(at as int, item_view));
            }
        }
        i = i + 1;
    }
    assert(views.take(i as int) =~= views);
    chats
}

} // verus!
