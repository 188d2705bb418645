use crate::name::{is_dotfile, is_shown, is_visible};
use vstd::prelude::*;

verus! {

/// What could be read of one entry's metadata.
#[derive(Clone, Copy, Debug, PartialEq, Eq, Structural)]
pub struct EntryMetadata {
    /// Length in bytes.
    pub len: u64,
    /// Last modification, in seconds since the Unix epoch, if it could be read.
    pub modified: Option<i64>,
}

/// One entry as the directory stream gave it.
#[derive(Debug)]
pub struct RawEntry {
    /// The name, or `None` where it is not valid text.
    pub name: Option<String>,
    pub is_directory: bool,
    /// `None` where the entry's metadata could not be read.
    pub metadata: Option<EntryMetadata>,
}

/// One listed entry.
#[derive(Debug)]
pub struct DirectoryEntry {
    pub name: String,
    pub is_directory: bool,
    /// `None` where the metadata could not be read.
    pub size_bytes: Option<u64>,
    /// Seconds since the Unix epoch; `None` where it could not be read.
    pub modified_at: Option<i64>,
}

/// Which entries are listed, and in what order.
#[derive(Clone, Copy, Debug, PartialEq, Eq, Structural)]
pub struct ListingPolicy {
    /// List dotfiles too.
    pub show_hidden: bool,
    /// List all directories before all other entries.
    pub directories_first: bool,
}

/// An entry is listed when its name is text and visible under the setting.
pub open spec fn is_listed(e: RawEntry, show_hidden: bool) -> bool {
    e.name is Some && is_shown(e.name->0@, show_hidden)
}

/// The listed form of a raw entry with a name.
pub open spec fn entry_of(e: RawEntry) -> DirectoryEntry {
    DirectoryEntry {
        name: e.name->0,
        is_directory: e.is_directory,
        size_bytes: match e.metadata {
            Some(m) => Some(m.len),
            None => None,
        },
        modified_at: match e.metadata {
            Some(m) => m.modified,
            None => None,
        },
    }
}

/// Listed, and of the wanted classification where one is asked for.
pub open spec fn is_wanted(e: RawEntry, show_hidden: bool, want: Option<bool>) -> bool {
    is_listed(e, show_hidden) && (want is Some ==> e.is_directory == want->0)
}

/// The wanted entries of a stream, in stream order.
pub open spec fn picked(s: Seq<RawEntry>, show_hidden: bool, want: Option<bool>) -> Seq<
    DirectoryEntry,
>
    decreases s.len(),
{
    if s.len() == 0 {
        Seq::empty()
    } else {
        let prev = picked(s.drop_last(), show_hidden, want);
        if is_wanted(s.last(), show_hidden, want) {
            prev.push(entry_of(s.last()))
        } else {
            prev
        }
    }
}

/// The listing of a stream under a policy.
pub open spec fn listed(s: Seq<RawEntry>, policy: ListingPolicy) -> Seq<DirectoryEntry> {
    if policy.directories_first {
        picked(s, policy.show_hidden, Some(true)) + picked(s, policy.show_hidden, Some(false))
    } else {
        picked(s, policy.show_hidden, None)
    }
}

/// Builds the listed form of a raw entry.
pub fn entry_from(raw: &RawEntry) -> (r: DirectoryEntry)
    requires
        raw.name is Some,
    ensures
        r == entry_of(*raw),
{
    let name = match &raw.name {
        Some(n) => n.clone(),
        None => String::new(),
    };
    let (size_bytes, modified_at) = match raw.metadata {
        Some(m) => (Some(m.len), m.modified),
        None => (None, None),
    };
    DirectoryEntry { name, is_directory: raw.is_directory, size_bytes, modified_at }
}

/// Lists a directory stream: drops entries whose name is not text and, unless
/// hidden entries are shown, dotfiles; keeps stream order, or with
/// `directories_first` puts all directories, in stream order, before all other
/// entries, in stream order.
pub fn list(entries: &Vec<RawEntry>, policy: ListingPolicy) -> (r: Vec<DirectoryEntry>)
    ensures
        r@ == listed(entries@, policy),
{
    let ghost s = entries@;
    let ghost sh = policy.show_hidden;
    let df = policy.directories_first;
    let mut first: Vec<DirectoryEntry> = Vec::new();
    let mut rest: Vec<DirectoryEntry> = Vec::new();
    for i in 0..entries.len()
        invariant
            s == entries@,
            sh == policy.show_hidden,
            df == policy.directories_first,
            df ==> first@ == picked(s.take(i as int), sh, Some(true)),
            df ==> rest@ == picked(s.take(i as int), sh, Some(false)),
            !df ==> first@ == picked(s.take(i as int), sh, None),
            !df ==> rest@.len() == 0,
    {
        let e = &entries[i];
        assert(s.take(i + 1).drop_last() == s.take(i as int));
        assert(s.take(i + 1).last() == s[i as int]);
        let shown = match &e.name {
            Some(n) => is_visible(n.as_str(), policy.show_hidden),
            None => false,
        };
        if shown {
            let d = entry_from(e);
            if !df || e.is_directory {
                first.push(d);
            } else {
                rest.push(d);
            }
        }
    }
    assert(s.take(entries.len() as int) == s);
    first.append(&mut rest);
    first
}

proof fn lemma_picked_members(s: Seq<RawEntry>, show_hidden: bool, want: Option<bool>)
    ensures
        forall|k: int|
            0 <= k < picked(s, show_hidden, want).len() ==> exists|j: int|
                0 <= j < s.len() && is_wanted(s[j], show_hidden, want) && #[trigger] picked(
                    s,
                    show_hidden,
                    want,
                )[k] == entry_of(s[j]),
    decreases s.len(),
{
    if s.len() > 0 {
        let t = s.drop_last();
        lemma_picked_members(t, show_hidden, want);
        assert forall|k: int| 0 <= k < picked(s, show_hidden, want).len() implies exists|j: int|
            0 <= j < s.len() && is_wanted(s[j], show_hidden, want) && #[trigger] picked(
                s,
                show_hidden,
                want,
            )[k] == entry_of(s[j]) by {
            if k < picked(t, show_hidden, want).len() {
                let j = choose|j: int|
                    0 <= j < t.len() && is_wanted(t[j], show_hidden, want) && #[trigger] picked(
                        t,
                        show_hidden,
                        want,
                    )[k] == entry_of(t[j]);
                assert(s[j] == t[j]);
            } else {
                assert(s[s.len() - 1] == s.last());
            }
        }
    }
}

proof fn lemma_picked_contains(s: Seq<RawEntry>, show_hidden: bool, want: Option<bool>, j: int)
    requires
        0 <= j < s.len(),
        is_wanted(s[j], show_hidden, want),
    ensures
        picked(s, show_hidden, want).contains(entry_of(s[j])),
    decreases s.len(),
{
    let t = s.drop_last();
    let p = picked(t, show_hidden, want);
    if j == s.len() - 1 {
        assert(picked(s, show_hidden, want).last() == entry_of(s[j]));
    } else {
        assert(t[j] == s[j]);
        lemma_picked_contains(t, show_hidden, want, j);
        let k = choose|k: int| 0 <= k < p.len() && p[k] == entry_of(s[j]);
        assert(picked(s, show_hidden, want)[k] == p[k]);
    }
}

/// Without hidden entries shown no listed name is a dotfile; with them shown
/// every entry whose name is text is listed.
pub proof fn lemma_hidden_entries(s: Seq<RawEntry>, directories_first: bool)
    ensures
        forall|k: int|
            0 <= k < listed(s, ListingPolicy { show_hidden: false, directories_first }).len()
                ==> !is_dotfile(
                #[trigger] listed(s, ListingPolicy { show_hidden: false, directories_first })[k].name@,
            ),
        forall|j: int|
            0 <= j < s.len() && (#[trigger] s[j]).name is Some ==> listed(
                s,
                ListingPolicy { show_hidden: true, directories_first },
            ).contains(entry_of(s[j])),
{
    lemma_picked_members(s, false, None);
    lemma_picked_members(s, false, Some(true));
    lemma_picked_members(s, false, Some(false));
    let hidden = ListingPolicy { show_hidden: false, directories_first };
    let l = listed(s, hidden);
    assert forall|k: int| 0 <= k < l.len() implies !is_dotfile(#[trigger] l[k].name@) by {
        if directories_first {
            let a = picked(s, false, Some(true));
            if k < a.len() {
                assert(l[k] == a[k]);
            } else {
                assert(l[k] == picked(s, false, Some(false))[k - a.len()]);
            }
        }
    }
    let shown = ListingPolicy { show_hidden: true, directories_first };
    assert forall|j: int| 0 <= j < s.len() && (#[trigger] s[j]).name is Some implies listed(
        s,
        shown,
    ).contains(entry_of(s[j])) by {
        let a = picked(s, true, Some(true));
        let b = picked(s, true, Some(false));
        if !directories_first {
            lemma_picked_contains(s, true, None, j);
        } else if s[j].is_directory {
            lemma_picked_contains(s, true, Some(true), j);
            let k = choose|k: int| 0 <= k < a.len() && a[k] == entry_of(s[j]);
            assert((a + b)[k] == a[k]);
        } else {
            lemma_picked_contains(s, true, Some(false), j);
            let k = choose|k: int| 0 <= k < b.len() && b[k] == entry_of(s[j]);
            assert((a + b)[a.len() + k] == b[k]);
        }
    }
}

/// The test for one classification, as a predicate on listed entries.
pub open spec fn of_class(is_directory: bool) -> spec_fn(DirectoryEntry) -> bool {
    |e: DirectoryEntry| e.is_directory == is_directory
}

/// The visibility test, as a predicate on raw entries.
pub open spec fn listed_under(show_hidden: bool) -> spec_fn(RawEntry) -> bool {
    |e: RawEntry| is_listed(e, show_hidden)
}

/// The listed form, as a function on raw entries.
pub open spec fn as_entry() -> spec_fn(RawEntry) -> DirectoryEntry {
    |e: RawEntry| entry_of(e)
}

proof fn lemma_picked_class(s: Seq<RawEntry>, show_hidden: bool, is_directory: bool)
    ensures
        picked(s, show_hidden, Some(is_directory)) == picked(s, show_hidden, None).filter(
            of_class(is_directory),
        ),
    decreases s.len(),
{
    if s.len() > 0 {
        let t = s.drop_last();
        lemma_picked_class(t, show_hidden, is_directory);
        let all = picked(s, show_hidden, None);
        if is_wanted(s.last(), show_hidden, None) {
            assert(all.drop_last() == picked(t, show_hidden, None));
        } else {
            assert(all == picked(t, show_hidden, None));
        }
        reveal_with_fuel(Seq::filter, 2);
    }
}

proof fn lemma_picked_in_order(s: Seq<RawEntry>, show_hidden: bool)
    ensures
        picked(s, show_hidden, None) == s.filter(listed_under(show_hidden)).map_values(
            as_entry(),
        ),
    decreases s.len(),
{
    reveal_with_fuel(Seq::filter, 2);
    if s.len() > 0 {
        let t = s.drop_last();
        lemma_picked_in_order(t, show_hidden);
        let f = t.filter(listed_under(show_hidden));
        if is_listed(s.last(), show_hidden) {
            assert(f.push(s.last()).map_values(as_entry()) =~= f.map_values(as_entry()).push(
                entry_of(s.last()),
            ));
        }
    }
}

/// Without `directories_first` the listing keeps the stream's order, visible
/// entries only; with it the same entries come as a stable partition, all
/// directories before all other entries.
pub proof fn lemma_listing_order(s: Seq<RawEntry>, show_hidden: bool)
    ensures
        listed(s, ListingPolicy { show_hidden, directories_first: false }) == s.filter(
            listed_under(show_hidden),
        ).map_values(as_entry()),
        listed(s, ListingPolicy { show_hidden, directories_first: true }) == listed(
            s,
            ListingPolicy { show_hidden, directories_first: false },
        ).filter(of_class(true)) + listed(
            s,
            ListingPolicy { show_hidden, directories_first: false },
        ).filter(of_class(false)),
        forall|i: int, j: int|
            0 <= i < j < listed(s, ListingPolicy { show_hidden, directories_first: true }).len()
                && !(#[trigger] listed(s, ListingPolicy { show_hidden, directories_first: true })[i]).is_directory
                ==> !(#[trigger] listed(
                s,
                ListingPolicy { show_hidden, directories_first: true },
            )[j]).is_directory,
{
    lemma_picked_in_order(s, show_hidden);
    lemma_picked_class(s, show_hidden, true);
    lemma_picked_class(s, show_hidden, false);
    lemma_picked_members(s, show_hidden, Some(true));
    lemma_picked_members(s, show_hidden, Some(false));
    let a = picked(s, show_hidden, Some(true));
    let b = picked(s, show_hidden, Some(false));
    let d = listed(s, ListingPolicy { show_hidden, directories_first: true });
    assert forall|i: int, j: int|
        0 <= i < j < d.len() && !(#[trigger] d[i]).is_directory implies !(
        #[trigger] d[j]).is_directory by {
        if i < a.len() {
            assert(d[i] == a[i]);
        }
        assert(d[j] == b[j - a.len()]);
    }
}

} // verus!
