//! Directory listings: which entries are shown, and in what order.
//!
//! Entries whose name starts with a dot, and the entry named `node_modules`,
//! are never shown. What remains is ordered with directories first and, among
//! entries of one kind, by name without regard to case. Entries that compare
//! equal keep the order in which they were read.

use vstd::prelude::*;
use vstd::seq_lib::*;
use vstd::string::*;
use crate::error::Error;
use crate::text::{
    bytes_le, key_no_greater, lemma_bytes_le_total, lemma_bytes_le_transitive, lowercase,
    lowercase_of, name_le, sort_key,
};

verus! {

/// One immediate child of a listed directory.
#[derive(Debug, Clone, PartialEq, Eq)]
pub struct FileInfo {
    /// The entry's own name, without any directory part.
    pub name: String,
    /// The entry's full path.
    pub path: String,
    /// Whether the entry is a directory.
    pub is_dir: bool,
}

/// A directory entry as a mathematical value.
pub struct FileEntry {
    pub name: Seq<char>,
    pub path: Seq<char>,
    pub is_dir: bool,
}

impl View for FileInfo {
    type V = FileEntry;

    open spec fn view(&self) -> FileEntry {
        FileEntry { name: self.name@, path: self.path@, is_dir: self.is_dir }
    }
}

/// The entries that a sequence of records stands for.
pub open spec fn entries_of(records: Seq<FileInfo>) -> Seq<FileEntry> {
    records.map_values(|record: FileInfo| record@)
}

/// Whether an entry of this name is left out of every listing.
pub open spec fn is_hidden(name: Seq<char>) -> bool {
    (name.len() > 0 && name[0] == '.') || name == "node_modules"@
}

/// Whether an entry is shown in listings.
pub open spec fn is_shown(entry: FileEntry) -> bool {
    !is_hidden(entry.name)
}

/// The listing order: `a` may stand before `b`. A directory stands before
/// every file; two entries of one kind stand in case-insensitive name order.
pub open spec fn precedes(a: FileEntry, b: FileEntry) -> bool {
    if a.is_dir == b.is_dir {
        name_le(a.name, b.name)
    } else {
        a.is_dir
    }
}

/// Whether every entry of `entries` may stand before every later one.
pub open spec fn ordered(entries: Seq<FileEntry>) -> bool {
    forall|i: int, j: int| 0 <= i < j < entries.len() ==> precedes(entries[i], entries[j])
}

/// Where `entry` goes in `rest` when it was read after all of `rest`: behind
/// the last entry that may stand before it.
pub open spec fn slot(rest: Seq<FileEntry>, entry: FileEntry) -> int
    decreases rest.len(),
{
    if rest.len() == 0 || precedes(rest.last(), entry) {
        rest.len() as int
    } else {
        slot(rest.drop_last(), entry)
    }
}

/// The entries in listing order. Each entry is placed, in the order read,
/// behind the last entry that may stand before it, so entries that compare
/// equal keep their relative order.
pub open spec fn arrange(entries: Seq<FileEntry>) -> Seq<FileEntry>
    decreases entries.len(),
{
    if entries.len() == 0 {
        Seq::empty()
    } else {
        let rest = arrange(entries.drop_last());
        rest.insert(slot(rest, entries.last()), entries.last())
    }
}

/// The listing of a directory whose entries were read as `entries`: the
/// entries that are shown, in listing order.
pub open spec fn listing(entries: Seq<FileEntry>) -> Seq<FileEntry> {
    arrange(entries.filter(|e: FileEntry| is_shown(e)))
}

/// Of any two entries, one may stand before the other.
pub proof fn lemma_precedes_total(a: FileEntry, b: FileEntry)
    ensures
        precedes(a, b) || precedes(b, a),
{
    lemma_bytes_le_total(sort_key(a.name), sort_key(b.name), 0);
}

/// The listing order is transitive.
pub proof fn lemma_precedes_transitive(a: FileEntry, b: FileEntry, c: FileEntry)
    requires
        precedes(a, b),
        precedes(b, c),
    ensures
        precedes(a, c),
{
    if a.is_dir == b.is_dir && b.is_dir == c.is_dir {
        lemma_bytes_le_transitive(sort_key(a.name), sort_key(b.name), sort_key(c.name), 0);
    }
}

/// The slot of an entry lies within `rest`, behind an entry that may stand
/// before it, and in front of entries only that may not.
proof fn lemma_slot(rest: Seq<FileEntry>, entry: FileEntry)
    ensures
        0 <= slot(rest, entry) <= rest.len(),
        forall|j: int| slot(rest, entry) <= j < rest.len() ==> !#[trigger] precedes(rest[j], entry),
        slot(rest, entry) > 0 ==> precedes(rest[slot(rest, entry) - 1], entry),
    decreases rest.len(),
{
    if !(rest.len() == 0 || precedes(rest.last(), entry)) {
        let front = rest.drop_last();
        lemma_slot(front, entry);
        assert forall|j: int| slot(rest, entry) <= j < rest.len() implies !#[trigger] precedes(
            rest[j],
            entry,
        ) by {
            if j < front.len() {
                assert(rest[j] == front[j]);
            }
        }
        if slot(rest, entry) > 0 {
            assert(rest[slot(rest, entry) - 1] == front[slot(front, entry) - 1]);
        }
    }
}

/// What stands at each position once `entry` has been inserted at `at`.
proof fn lemma_inserted(rest: Seq<FileEntry>, at: int, entry: FileEntry, k: int)
    requires
        0 <= at <= rest.len(),
        0 <= k <= rest.len(),
    ensures
        rest.insert(at, entry).len() == rest.len() + 1,
        rest.insert(at, entry)[k] == (if k < at {
            rest[k]
        } else if k == at {
            entry
        } else {
            rest[k - 1]
        }),
{
}

/// A position with the properties of the slot is the slot.
proof fn lemma_slot_unique(rest: Seq<FileEntry>, entry: FileEntry, at: int)
    requires
        0 <= at <= rest.len(),
        forall|j: int| at <= j < rest.len() ==> !#[trigger] precedes(rest[j], entry),
        at > 0 ==> precedes(rest[at - 1], entry),
    ensures
        at == slot(rest, entry),
{
    lemma_slot(rest, entry);
}

/// Placing an entry at its slot keeps an ordered sequence ordered.
proof fn lemma_insert_at_slot_ordered(rest: Seq<FileEntry>, entry: FileEntry)
    requires
        ordered(rest),
    ensures
        ordered(rest.insert(slot(rest, entry), entry)),
{
    lemma_slot(rest, entry);
    let at = slot(rest, entry);
    let placed = rest.insert(at, entry);
    assert forall|i: int, j: int| 0 <= i < j < placed.len() implies precedes(
        placed[i],
        placed[j],
    ) by {
        lemma_inserted(rest, at, entry, i);
        lemma_inserted(rest, at, entry, j);
        if j == at {
            if i < at - 1 {
                assert(precedes(rest[i], rest[at - 1]));
                lemma_precedes_transitive(rest[i], rest[at - 1], entry);
            }
        } else if i == at {
            assert(!precedes(rest[j - 1], entry));
            lemma_precedes_total(entry, rest[j - 1]);
        } else if i < at && j > at {
            assert(precedes(rest[i], rest[j - 1]));
        } else if i > at {
            assert(precedes(rest[i - 1], rest[j - 1]));
        } else {
            assert(precedes(rest[i], rest[j]));
        }
    }
}

/// Listing order holds of every arranged sequence.
proof fn lemma_arrange_ordered(entries: Seq<FileEntry>)
    ensures
        ordered(arrange(entries)),
    decreases entries.len(),
{
    if entries.len() > 0 {
        lemma_arrange_ordered(entries.drop_last());
        lemma_insert_at_slot_ordered(arrange(entries.drop_last()), entries.last());
    }
}

/// Arranging neither drops nor adds nor repeats an entry.
proof fn lemma_arrange_permutes(entries: Seq<FileEntry>)
    ensures
        arrange(entries).to_multiset() == entries.to_multiset(),
        arrange(entries).len() == entries.len(),
    decreases entries.len(),
{
    broadcast use vstd::multiset::group_multiset_axioms;

    if entries.len() == 0 {
        assert(arrange(entries) =~= entries);
    } else {
        let front = entries.drop_last();
        let rest = arrange(front);
        lemma_arrange_permutes(front);
        lemma_slot(rest, entries.last());
        to_multiset_insert(rest, slot(rest, entries.last()), entries.last());
        assert(entries =~= front.insert(front.len() as int, entries.last()));
        to_multiset_insert(front, front.len() as int, entries.last());
    }
}

/// A listing is in listing order: every directory stands before every file,
/// and entries of one kind stand in case-insensitive name order.
pub proof fn lemma_listing_ordered(entries: Seq<FileEntry>)
    ensures
        ordered(listing(entries)),
        forall|i: int, j: int|
            0 <= i < j < listing(entries).len() && listing(entries)[j].is_dir
                ==> listing(entries)[i].is_dir,
        forall|i: int, j: int|
            0 <= i < j < listing(entries).len() && listing(entries)[i].is_dir == listing(
                entries,
            )[j].is_dir ==> name_le(listing(entries)[i].name, listing(entries)[j].name),
{
    let listed = listing(entries);
    lemma_arrange_ordered(entries.filter(|e: FileEntry| is_shown(e)));
    assert forall|i: int, j: int|
        0 <= i < j < listed.len() && listed[j].is_dir implies listed[i].is_dir by {
        assert(precedes(listed[i], listed[j]));
    }
    assert forall|i: int, j: int|
        0 <= i < j < listed.len() && listed[i].is_dir == listed[j].is_dir implies name_le(
        listed[i].name,
        listed[j].name,
    ) by {
        assert(precedes(listed[i], listed[j]));
    }
}

/// A listing holds exactly the entries that are shown, each as often as it
/// was read: no hidden entry is in it, whatever its kind, and no shown entry
/// is missing from it.
pub proof fn lemma_listing_shows(entries: Seq<FileEntry>)
    ensures
        listing(entries).to_multiset() == entries.filter(|e: FileEntry| is_shown(e)).to_multiset(),
        forall|i: int| 0 <= i < listing(entries).len() ==> !is_hidden(listing(entries)[i].name),
        forall|i: int|
            0 <= i < entries.len() && !is_hidden(entries[i].name) ==> listing(entries).contains(
                entries[i],
            ),
{
    broadcast use {vstd::seq_lib::group_to_multiset_ensures, vstd::seq_lib::group_filter_ensures};

    let shown = entries.filter(|e: FileEntry| is_shown(e));
    let listed = listing(entries);
    lemma_arrange_permutes(shown);
    assert forall|i: int| 0 <= i < listed.len() implies !is_hidden(listed[i].name) by {
        assert(listed.to_multiset().count(listed[i]) > 0);
        assert(shown.contains(listed[i]));
        let at = choose|at: int| 0 <= at < shown.len() && shown[at] == listed[i];
        assert(is_shown(shown[at]));
    }
    assert forall|i: int|
        0 <= i < entries.len() && !is_hidden(entries[i].name) implies listed.contains(
        entries[i],
    ) by {
        assert(is_shown(entries[i]));
        assert(shown.contains(entries[i]));
        assert(shown.to_multiset().count(entries[i]) > 0);
    }
}

/// Whether two entries are equal in the listing order: each may stand before
/// the other.
pub open spec fn same_rank(a: FileEntry, b: FileEntry) -> bool {
    precedes(a, b) && precedes(b, a)
}

/// Arranging keeps entries of one rank in the order given.
proof fn lemma_arrange_stable(entries: Seq<FileEntry>, like: FileEntry)
    ensures
        arrange(entries).filter(|e: FileEntry| same_rank(e, like)) == entries.filter(
            |e: FileEntry| same_rank(e, like),
        ),
    decreases entries.len(),
{
    let of_rank = |e: FileEntry| same_rank(e, like);
    reveal(Seq::filter);
    if entries.len() > 0 {
        let front = entries.drop_last();
        let entry = entries.last();
        let rest = arrange(front);
        let at = slot(rest, entry);
        lemma_arrange_stable(front, like);
        lemma_slot(rest, entry);
        let before = rest.subrange(0, at);
        let behind = rest.subrange(at, rest.len() as int);
        assert(rest =~= before + behind);
        assert(rest.insert(at, entry) =~= (before + seq![entry]) + behind);
        Seq::filter_distributes_over_add(before, behind, of_rank);
        Seq::filter_distributes_over_add(before + seq![entry], behind, of_rank);
        Seq::filter_distributes_over_add(before, seq![entry], of_rank);
        assert(seq![entry].drop_last() =~= Seq::<FileEntry>::empty());
        assert(Seq::<FileEntry>::empty().filter(of_rank) =~= Seq::<FileEntry>::empty());
        if same_rank(entry, like) {
            assert(seq![entry].filter(of_rank) =~= seq![entry]);
            assert(behind.all(|e: FileEntry| !of_rank(e))) by {
                assert forall|j: int| 0 <= j < behind.len() implies !of_rank(behind[j]) by {
                    assert(behind[j] == rest[at + j]);
                    assert(!precedes(rest[at + j], entry));
                    if same_rank(behind[j], like) {
                        lemma_precedes_transitive(behind[j], like, entry);
                    }
                }
            }
            behind.lemma_all_neg_filter_empty(of_rank);
            assert(behind.filter(of_rank) =~= Seq::<FileEntry>::empty());
            assert(arrange(entries).filter(of_rank) =~= rest.filter(of_rank).push(entry));
        } else {
            assert(seq![entry].filter(of_rank) =~= Seq::<FileEntry>::empty());
            assert(arrange(entries).filter(of_rank) =~= rest.filter(of_rank));
        }
    }
}

/// A listing keeps entries that are equal in the listing order in the order
/// in which they were read: those of its entries that are of one rank with
/// `like` are the shown entries of that rank, in the order read.
pub proof fn lemma_listing_stable(entries: Seq<FileEntry>, like: FileEntry)
    ensures
        listing(entries).filter(|e: FileEntry| same_rank(e, like)) == entries.filter(
            |e: FileEntry| is_shown(e),
        ).filter(|e: FileEntry| same_rank(e, like)),
{
    lemma_arrange_stable(entries.filter(|e: FileEntry| is_shown(e)), like);
}

/// The entries that were read, where all of them could be inspected.
pub open spec fn inspected(read: Seq<Result<FileInfo, String>>) -> Seq<FileEntry> {
    read.map_values(|r: Result<FileInfo, String>| r->Ok_0@)
}

/// What reading a directory comes to, given what was read of each entry in
/// turn: the listing, if every entry could be inspected; else the failure of
/// the first entry that could not.
pub open spec fn directory_listing(read: Seq<Result<FileInfo, String>>) -> Result<
    Seq<FileEntry>,
    Error,
> {
    if forall|i: int| 0 <= i < read.len() ==> read[i] is Ok {
        Ok(listing(inspected(read)))
    } else {
        Err(Error::EntryReadFailed(read[first_failure(read)]->Err_0))
    }
}

/// The position of the first entry that could not be inspected.
pub open spec fn first_failure(read: Seq<Result<FileInfo, String>>) -> int {
    choose|i: int|
        0 <= i < read.len() && read[i] is Err && forall|j: int| 0 <= j < i ==> read[j] is Ok
}

/// Decides whether an entry of this name is hidden.
pub fn is_hidden_name(name: &String) -> (hidden: bool)
    ensures
        hidden == is_hidden(name@),
{
    let text = name.as_str();
    if text.is_empty() {
        proof {
            reveal_strlit("node_modules");
        }
        false
    } else if text.get_char(0) == '.' {
        true
    } else {
        let reserved = String::from_str("node_modules");
        *name == reserved
    }
}

/// Decides the listing order from the kinds of two entries and the
/// lowercase forms of their names.
fn stands_before(a_is_dir: bool, a_key: &String, b_is_dir: bool, b_key: &String) -> (le: bool)
    ensures
        le == (if a_is_dir == b_is_dir {
            bytes_le(vstd::utf8::encode_utf8(a_key@), vstd::utf8::encode_utf8(b_key@))
        } else {
            a_is_dir
        }),
{
    if a_is_dir == b_is_dir {
        key_no_greater(a_key, b_key)
    } else {
        a_is_dir
    }
}

/// Lists entries that are stacked with the one read first on top.
fn list_stacked(stack: Vec<FileInfo>) -> (listed: Vec<FileInfo>)
    ensures
        entries_of(listed@) == listing(entries_of(stack@).reverse()),
{
    let ghost read = entries_of(stack@).reverse();
    let mut stack = stack;
    let mut listed: Vec<FileInfo> = Vec::new();
    let mut keys: Vec<String> = Vec::new();
    proof {
        reveal(Seq::filter);
        assert(read.take(0).filter(|e: FileEntry| is_shown(e)) =~= Seq::empty());
        assert(entries_of(listed@) =~= Seq::empty());
    }
    while stack.len() > 0
        invariant
            stack.len() <= read.len(),
            forall|i: int| 0 <= i < stack.len() ==> stack[i]@ == read[read.len() - 1 - i],
            entries_of(listed@) == listing(read.take(read.len() - stack.len())),
            keys.len() == listed.len(),
            forall|j: int|
                0 <= j < keys.len() ==> (#[trigger] keys[j])@ == lowercase(listed[j].name@),
        decreases stack.len(),
    {
        let ghost done = read.len() - stack.len();
        let ghost placed = entries_of(listed@);
        let entry = stack.pop().unwrap();
        let ghost shown_before = read.take(done).filter(|e: FileEntry| is_shown(e));
        proof {
            let now = read.take(done + 1);
            assert(entry@ == read[done]);
            assert(now.drop_last() =~= read.take(done));
            assert(now.last() == entry@);
            reveal(Seq::filter);
            assert(now.filter(|e: FileEntry| is_shown(e)) == if is_shown(entry@) {
                shown_before.push(entry@)
            } else {
                shown_before
            });
            assert(shown_before.push(entry@).drop_last() =~= shown_before);
        }
        if !is_hidden_name(&entry.name) {
            let key = lowercase_of(entry.name.as_str());
            let mut at: usize = listed.len();
            while at > 0 && !stands_before(listed[at - 1].is_dir, &keys[at - 1], entry.is_dir, &key)
                invariant
                    at <= listed.len(),
                    keys.len() == listed.len(),
                    key@ == lowercase(entry.name@),
                    forall|j: int|
                        0 <= j < keys.len() ==> (#[trigger] keys[j])@ == lowercase(
                            listed[j].name@,
                        ),
                    forall|j: int|
                        at <= j < listed.len() ==> !#[trigger] precedes(listed[j]@, entry@),
                decreases at,
            {
                at -= 1;
            }
            proof {
                assert forall|j: int| at <= j < placed.len() implies !#[trigger] precedes(
                    placed[j],
                    entry@,
                ) by {
                    assert(!precedes(listed[j]@, entry@));
                }
                lemma_slot_unique(placed, entry@, at as int);
            }
            let ghost shown = entry@;
            listed.insert(at, entry);
            keys.insert(at, key);
            proof {
                assert(entries_of(listed@) =~= placed.insert(at as int, shown));
            }
        }
    }
    proof {
        assert(read.take(read.len() as int) =~= read);
    }
    listed
}

/// Turns a vector end for end.
fn reversed<T>(items: Vec<T>) -> (turned: Vec<T>)
    ensures
        turned@ == items@.reverse(),
{
    let ghost given = items@;
    let mut items = items;
    let mut turned: Vec<T> = Vec::new();
    while items.len() > 0
        invariant
            items.len() + turned.len() == given.len(),
            forall|i: int| 0 <= i < items.len() ==> items[i] == given[i],
            forall|i: int| 0 <= i < turned.len() ==> turned[i] == given[given.len() - 1 - i],
        decreases items.len(),
    {
        let item = items.pop().unwrap();
        turned.push(item);
    }
    proof {
        assert(turned@ =~= given.reverse());
    }
    turned
}

/// Lists the entries of a directory, given in the order they were read.
///
/// The result holds the entries that are shown and no others, ordered with
/// directories first and names in case-insensitive order.
pub fn list(entries: Vec<FileInfo>) -> (listed: Vec<FileInfo>)
    ensures
        entries_of(listed@) == listing(entries_of(entries@)),
        ordered(entries_of(listed@)),
        forall|i: int| 0 <= i < listed.len() ==> !is_hidden(listed[i].name@),
        entries_of(listed@).to_multiset() == entries_of(entries@).filter(
            |e: FileEntry| is_shown(e),
        ).to_multiset(),
{
    let ghost read = entries_of(entries@);
    let stack = reversed(entries);
    proof {
        lemma_listing_ordered(read);
        lemma_listing_shows(read);
        assert(entries_of(stack@).reverse() =~= read);
    }
    let listed = list_stacked(stack);
    proof {
        assert forall|i: int| 0 <= i < listed.len() implies !is_hidden(listed[i].name@) by {
            assert(entries_of(listed@)[i] == listed[i]@);
        }
    }
    listed
}

/// Lists a directory from what was read of each of its entries in turn.
///
/// One entry that could not be inspected fails the whole listing, with the
/// cause reported for the first such entry.
pub fn list_directory(read: Vec<Result<FileInfo, String>>) -> (outcome: Result<
    Vec<FileInfo>,
    Error,
>)
    ensures
        (match outcome {
            Ok(listed) => directory_listing(read@) == Ok::<Seq<FileEntry>, Error>(
                entries_of(listed@),
            ),
            Err(error) => directory_listing(read@) == Err::<Seq<FileEntry>, Error>(error),
        }),
{
    let ghost given = read@;
    let mut read = read;
    let mut i: usize = 0;
    while i < read.len() && read[i].is_ok()
        invariant
            read@ == given,
            i <= read.len(),
            forall|j: int| 0 <= j < i ==> read[j] is Ok,
        decreases read.len() - i,
    {
        i += 1;
    }
    if i < read.len() {
        let failed = read.swap_remove(i);
        proof {
            let first = first_failure(given);
            assert(given[i as int] is Err);
            if first < i {
                assert(given[first] is Ok);
            }
            if i < first {
                assert(given[i as int] is Ok);
            }
        }
        Err(Error::EntryReadFailed(failed.unwrap_err()))
    } else {
        let ghost entries = inspected(given);
        let mut stack: Vec<FileInfo> = Vec::new();
        while read.len() > 0
            invariant
                read.len() + stack.len() == given.len(),
                forall|j: int| 0 <= j < given.len() ==> given[j] is Ok,
                forall|j: int| 0 <= j < read.len() ==> read[j] == given[j],
                forall|j: int|
                    0 <= j < stack.len() ==> stack[j]@ == entries[entries.len() - 1 - j],
                entries.len() == given.len(),
                forall|j: int| 0 <= j < given.len() ==> entries[j] == given[j]->Ok_0@,
            decreases read.len(),
        {
            let item = read.pop().unwrap();
            assert(item == given[read.len() as int]);
            stack.push(item.unwrap());
        }
        proof {
            assert(entries_of(stack@).reverse() =~= entries);
        }
        Ok(list_stacked(stack))
    }
}

} // verus!
