use vstd::prelude::*;
use crate::clock::{format_utc, now_unix_seconds, utc_text};
use crate::crypto::{address_is_valid, validate_address};
use crate::error::WalletError;
use crate::order::{first_below, lemma_insert_desc_at, sort_desc};
use crate::text::{contains_seq, contains_text, decimal_of, decimal_text, lower_of, lowercase, same_text};

verus! {

/// A named counterparty address with its usage metadata. Times are Unix seconds.
#[derive(Debug)]
pub struct AddressEntry {
    pub name: String,
    pub address: String,
    pub label: Option<String>,
    pub created_at: i64,
    pub last_used: Option<i64>,
    pub use_count: u32,
    pub is_favorite: bool,
    pub notes: Option<String>,
}

/// The book as entries in insertion order and the favorites index as names in the order
/// they were marked.
pub struct AddressBookView {
    pub entries: Seq<AddressEntry>,
    pub favorites: Seq<Seq<char>>,
}

/// The address book: entries keyed by unique name, and an index of favorite names.
pub struct AddressBook {
    entries: Vec<AddressEntry>,
    favorites: Vec<String>,
}

impl View for AddressBook {
    type V = AddressBookView;

    closed spec fn view(&self) -> AddressBookView {
        AddressBookView { entries: self.entries@, favorites: self.favorites@.map_values(|s: String| s@) }
    }
}

/// Some entry has this name.
pub open spec fn has_name(entries: Seq<AddressEntry>, name: Seq<char>) -> bool {
    exists|i: int| 0 <= i < entries.len() && (#[trigger] entries[i]).name@ == name
}

/// Some entry with this name is marked favorite.
pub open spec fn is_favorite_name(entries: Seq<AddressEntry>, name: Seq<char>) -> bool {
    exists|i: int| 0 <= i < entries.len() && (#[trigger] entries[i]).name@ == name && entries[i].is_favorite
}

pub open spec fn names_unique(entries: Seq<AddressEntry>) -> bool {
    forall|i: int, j: int|
        0 <= i < entries.len() && 0 <= j < entries.len() && i != j ==> (#[trigger] entries[i]).name@
            != (#[trigger] entries[j]).name@
}

/// The favorites index holds each favorite name once, and exactly the names of the
/// entries marked favorite.
pub open spec fn favorites_agree(v: AddressBookView) -> bool {
    &&& v.favorites.no_duplicates()
    &&& forall|n: Seq<char>| #[trigger] v.favorites.contains(n) <==> is_favorite_name(v.entries, n)
}

pub open spec fn book_wf(v: AddressBookView) -> bool {
    names_unique(v.entries) && favorites_agree(v)
}

/// Whether an entry matches a lowered query: in its name, address, label or notes,
/// each lowered.
pub open spec fn entry_matches(e: AddressEntry, q: Seq<char>) -> bool {
    ||| contains_seq(lower_of(e.name@), q)
    ||| contains_seq(lower_of(e.address@), q)
    ||| (e.label matches Some(l) && contains_seq(lower_of(l@), q))
    ||| (e.notes matches Some(n) && contains_seq(lower_of(n@), q))
}

/// The entries that match a lowered query, in book order.
pub open spec fn matching_entries(entries: Seq<AddressEntry>, q: Seq<char>) -> Seq<AddressEntry>
    decreases entries.len(),
{
    if entries.len() == 0 {
        Seq::empty()
    } else {
        let rest = matching_entries(entries.drop_last(), q);
        if entry_matches(entries.last(), q) {
            rest.push(entries.last())
        } else {
            rest
        }
    }
}

/// Positions 0..n of the book.
pub open spec fn positions(n: nat) -> Seq<usize> {
    Seq::new(n, |i: int| i as usize)
}

/// The sort key of position `i`: its use count, or its last use when `recency` holds.
pub open spec fn position_key(entries: Seq<AddressEntry>, recency: bool) -> spec_fn(usize) -> int {
    |i: usize| if recency { recency_key(entries[i as int]) } else { entries[i as int].use_count as int }
}

/// Positions of the book from the largest key down, ties in insertion order.
pub open spec fn position_order(entries: Seq<AddressEntry>, recency: bool) -> Seq<usize> {
    sort_desc(positions(entries.len()), position_key(entries, recency))
}

/// Positions of the book from most used down, ties in insertion order.
pub open spec fn frequency_order(entries: Seq<AddressEntry>) -> Seq<usize> {
    position_order(entries, false)
}

/// The sort key of an entry by last use; never-used entries sort below all others.
pub open spec fn recency_key(e: AddressEntry) -> int {
    match e.last_used {
        Some(t) => t as int,
        None => i64::MIN as int - 1,
    }
}

/// Positions of the book from most recently used down, ties in insertion order.
pub open spec fn recency_order(entries: Seq<AddressEntry>) -> Seq<usize> {
    position_order(entries, true)
}

/// The CSV header of an export.
pub open spec fn csv_header() -> Seq<char> {
    "Name,Address,Label,Notes,Created,Last Used,Use Count,Is Favorite\n"@
}

pub open spec fn text_or_empty(t: Option<String>) -> Seq<char> {
    match t {
        Some(s) => s@,
        None => Seq::empty(),
    }
}

pub open spec fn time_text(t: i64) -> Seq<char> {
    match utc_text(t) {
        Some(s) => s,
        None => Seq::empty(),
    }
}

/// One CSV row of an entry.
pub open spec fn csv_row(e: AddressEntry) -> Seq<char> {
    e.name@ + ","@ + e.address@ + ","@ + text_or_empty(e.label) + ","@ + text_or_empty(e.notes) + ","@
        + time_text(e.created_at) + ","@ + match e.last_used {
        Some(t) => time_text(t),
        None => "Never"@,
    } + ","@ + decimal_of(e.use_count as nat) + ","@ + if e.is_favorite {
        "true"@
    } else {
        "false"@
    } + "\n"@
}

/// The rows of entries, in order.
pub open spec fn csv_rows(entries: Seq<AddressEntry>) -> Seq<char>
    decreases entries.len(),
{
    if entries.len() == 0 {
        Seq::empty()
    } else {
        csv_rows(entries.drop_last()) + csv_row(entries.last())
    }
}

proof fn lemma_remove_keeps_distinct(s: Seq<Seq<char>>, k: int, n: Seq<char>)
    requires
        s.no_duplicates(),
        0 <= k < s.len(),
    ensures
        s.remove(k).no_duplicates(),
        s.remove(k).contains(n) <==> (s.contains(n) && n != s[k]),
{
    let r = s.remove(k);
    assert forall|i: int| 0 <= i < r.len() implies r[i] == (if i < k { s[i] } else { s[i + 1] }) by {}
    if r.contains(n) {
        let i = choose|i: int| 0 <= i < r.len() && r[i] == n;
        if i < k {
            assert(s[i] == n);
        } else {
            assert(s[i + 1] == n);
        }
    }
    if s.contains(n) && n != s[k] {
        let i = choose|i: int| 0 <= i < s.len() && s[i] == n;
        if i < k {
            assert(r[i] == n);
        } else {
            assert(r[i - 1] == n);
        }
    }
    assert forall|i: int, j: int| 0 <= i < r.len() && 0 <= j < r.len() && i != j implies r[i] != r[j] by {
        let si = if i < k { i } else { i + 1 };
        let sj = if j < k { j } else { j + 1 };
        assert(r[i] == s[si]);
        assert(r[j] == s[sj]);
    }
}

proof fn lemma_remove_entry(entries: Seq<AddressEntry>, k: int, n: Seq<char>)
    requires
        names_unique(entries),
        0 <= k < entries.len(),
    ensures
        names_unique(entries.remove(k)),
        is_favorite_name(entries.remove(k), n) <==> (is_favorite_name(entries, n) && n != entries[k].name@),
        has_name(entries.remove(k), n) <==> (has_name(entries, n) && n != entries[k].name@),
{
    let r = entries.remove(k);
    assert forall|i: int| 0 <= i < r.len() implies r[i] == (if i < k { entries[i] } else { entries[i + 1] }) by {}
    if is_favorite_name(r, n) {
        let i = choose|i: int| 0 <= i < r.len() && (#[trigger] r[i]).name@ == n && r[i].is_favorite;
        let si = if i < k { i } else { i + 1 };
        assert(entries[si] == r[i]);
    }
    if is_favorite_name(entries, n) && n != entries[k].name@ {
        let i = choose|i: int| 0 <= i < entries.len() && (#[trigger] entries[i]).name@ == n && entries[i].is_favorite;
        let ri = if i < k { i } else { i - 1 };
        assert(r[ri] == entries[i]);
    }
    if has_name(r, n) {
        let i = choose|i: int| 0 <= i < r.len() && (#[trigger] r[i]).name@ == n;
        let si = if i < k { i } else { i + 1 };
        assert(entries[si] == r[i]);
    }
    if has_name(entries, n) && n != entries[k].name@ {
        let i = choose|i: int| 0 <= i < entries.len() && (#[trigger] entries[i]).name@ == n;
        let ri = if i < k { i } else { i - 1 };
        assert(r[ri] == entries[i]);
    }
    assert forall|i: int, j: int|
        0 <= i < r.len() && 0 <= j < r.len() && i != j implies (#[trigger] r[i]).name@ != (#[trigger] r[j]).name@ by {
        let si = if i < k { i } else { i + 1 };
        let sj = if j < k { j } else { j + 1 };
        assert(r[i] == entries[si]);
        assert(r[j] == entries[sj]);
    }
}

proof fn lemma_same_keys(a: AddressBookView, b: AddressBookView)
    requires
        book_wf(a),
        a.favorites == b.favorites,
        a.entries.len() == b.entries.len(),
        forall|j: int| 0 <= j < a.entries.len() ==> (#[trigger] b.entries[j]).name == a.entries[j].name
            && b.entries[j].is_favorite == a.entries[j].is_favorite,
    ensures
        book_wf(b),
        forall|n: Seq<char>| has_name(b.entries, n) <==> has_name(a.entries, n),
{
    assert forall|n: Seq<char>| #[trigger] b.favorites.contains(n) <==> is_favorite_name(b.entries, n) by {
        if is_favorite_name(b.entries, n) {
            let i = choose|i: int| 0 <= i < b.entries.len() && (#[trigger] b.entries[i]).name@ == n && b.entries[i].is_favorite;
            assert(is_favorite_name(a.entries, n));
        }
        if is_favorite_name(a.entries, n) {
            let i = choose|i: int| 0 <= i < a.entries.len() && (#[trigger] a.entries[i]).name@ == n && a.entries[i].is_favorite;
            assert(b.entries[i].name == a.entries[i].name);
        }
    }
    assert forall|n: Seq<char>| has_name(b.entries, n) <==> has_name(a.entries, n) by {
        if has_name(b.entries, n) {
            let i = choose|i: int| 0 <= i < b.entries.len() && (#[trigger] b.entries[i]).name@ == n;
            assert(a.entries[i].name == b.entries[i].name);
        }
        if has_name(a.entries, n) {
            let i = choose|i: int| 0 <= i < a.entries.len() && (#[trigger] a.entries[i]).name@ == n;
            assert(b.entries[i].name == a.entries[i].name);
        }
    }
    assert forall|i: int, j: int|
        0 <= i < b.entries.len() && 0 <= j < b.entries.len() && i != j implies (#[trigger] b.entries[i]).name@
            != (#[trigger] b.entries[j]).name@ by {
        assert(a.entries[i].name == b.entries[i].name);
        assert(a.entries[j].name == b.entries[j].name);
    }
}

/// In a well-formed book the favorites index, taken as a set, is exactly the set of names
/// of the entries marked favorite, and it names each of them once. Every operation of the
/// book keeps it well-formed, so this holds after any sequence of them.
pub proof fn lemma_favorites_index_exact(v: AddressBookView)
    requires
        book_wf(v),
    ensures
        v.favorites.to_set() == Set::new(|n: Seq<char>| is_favorite_name(v.entries, n)),
        v.favorites.no_duplicates(),
{
    assert(v.favorites.to_set() =~= Set::new(|n: Seq<char>| is_favorite_name(v.entries, n))) by {
        assert forall|n: Seq<char>| v.favorites.to_set().contains(n) <==> is_favorite_name(v.entries, n) by {
            assert(v.favorites.to_set().contains(n) <==> v.favorites.contains(n));
        }
    }
}

/// Once a name has been added, the name is taken: adding it again meets the case of
/// `add_address` that fails with `DuplicateName` and leaves the book unchanged.
pub proof fn lemma_added_name_is_taken(before: AddressBookView, after: AddressBookView, name: Seq<char>)
    requires
        after.entries.len() == before.entries.len() + 1,
        after.entries.drop_last() == before.entries,
        after.entries.last().name@ == name,
    ensures
        has_name(after.entries, name),
{
    assert(after.entries[after.entries.len() - 1].name@ == name);
}

fn push_text(dst: &mut String, t: &Option<String>)
    ensures
        final(dst)@ == old(dst)@ + text_or_empty(*t),
{
    match t {
        Some(s) => dst.append(s.as_str()),
        None => {
            assert(old(dst)@ + Seq::<char>::empty() =~= old(dst)@);
        },
    }
}

fn push_time(dst: &mut String, t: i64)
    ensures
        final(dst)@ == old(dst)@ + time_text(t),
{
    match format_utc(t) {
        Some(s) => dst.append(s.as_str()),
        None => {
            assert(old(dst)@ + Seq::<char>::empty() =~= old(dst)@);
        },
    }
}

fn csv_row_exec(e: &AddressEntry) -> (r: String)
    ensures
        r@ == csv_row(*e),
{
    let mut r = e.name.clone();
    r.append(",");
    r.append(e.address.as_str());
    r.append(",");
    push_text(&mut r, &e.label);
    r.append(",");
    push_text(&mut r, &e.notes);
    r.append(",");
    push_time(&mut r, e.created_at);
    r.append(",");
    match e.last_used {
        Some(t) => push_time(&mut r, t),
        None => r.append("Never"),
    }
    r.append(",");
    let count = decimal_text(e.use_count as u64);
    r.append(count.as_str());
    r.append(",");
    if e.is_favorite {
        r.append("true");
    } else {
        r.append("false");
    }
    r.append("\n");
    r
}

impl AddressBook {
    pub open spec fn wf(&self) -> bool {
        book_wf(self@)
    }

    /// An empty book.
    pub fn new() -> (r: AddressBook)
        ensures
            r.wf(),
            r@.entries.len() == 0,
            r@.favorites.len() == 0,
    {
        let r = AddressBook { entries: Vec::new(), favorites: Vec::new() };
        assert(r@.favorites =~= Seq::<Seq<char>>::empty());
        r
    }

    /// Whether `address` is a valid address: the one check that every entry's address passes.
    pub fn is_valid_address(&self, address: &str) -> (r: bool)
        ensures
            r == address_is_valid(address@),
    {
        validate_address(address)
    }

    fn find(&self, name: &str) -> (r: Option<usize>)
        ensures
            r matches Some(i) ==> i < self@.entries.len() && self@.entries[i as int].name@ == name@,
            r is None ==> !has_name(self@.entries, name@),
    {
        let mut i: usize = 0;
        while i < self.entries.len()
            invariant
                i <= self.entries@.len(),
                forall|j: int| 0 <= j < i ==> (#[trigger] self.entries@[j]).name@ != name@,
            decreases self.entries@.len() - i,
        {
            if same_text(self.entries[i].name.as_str(), name) {
                return Some(i);
            }
            i = i + 1;
        }
        None
    }

    /// Adds an entry. Fails with `DuplicateName` when the name is taken and with
    /// `InvalidAddress` when the address does not validate; the book is then unchanged.
    pub fn add_address(&mut self, name: String, address: String, label: Option<String>, notes: Option<String>) -> (r: Result<(), WalletError>)
        requires
            old(self).wf(),
        ensures
            final(self).wf(),
            has_name(old(self)@.entries, name@) ==> r == Err::<(), WalletError>(WalletError::DuplicateName(name))
                && final(self)@ == old(self)@,
            !has_name(old(self)@.entries, name@) && !address_is_valid(address@) ==> (r matches Err(
                WalletError::InvalidAddress(_),
            )) && final(self)@ == old(self)@,
            !has_name(old(self)@.entries, name@) && address_is_valid(address@) ==> {
                &&& r is Ok
                &&& final(self)@.favorites == old(self)@.favorites
                &&& final(self)@.entries.len() == old(self)@.entries.len() + 1
                &&& final(self)@.entries.drop_last() == old(self)@.entries
                &&& final(self)@.entries.last().name == name
                &&& final(self)@.entries.last().address == address
                &&& final(self)@.entries.last().label == label
                &&& final(self)@.entries.last().notes == notes
                &&& final(self)@.entries.last().last_used is None
                &&& final(self)@.entries.last().use_count == 0
                &&& !final(self)@.entries.last().is_favorite
            },
    {
        if self.find(name.as_str()).is_some() {
            return Err(WalletError::DuplicateName(name));
        }
        if !validate_address(address.as_str()) {
            return Err(WalletError::InvalidAddress(String::from_str("Invalid address format: ").concat(address.as_str())));
        }
        let ghost old_view = self@;
        let entry = AddressEntry {
            name,
            address,
            label,
            created_at: now_unix_seconds(),
            last_used: None,
            use_count: 0,
            is_favorite: false,
            notes,
        };
        self.entries.push(entry);
        proof {
            let v = self@;
            assert(v.entries.drop_last() =~= old_view.entries);
            assert(v.favorites == old_view.favorites);
            assert forall|i: int, j: int|
                0 <= i < v.entries.len() && 0 <= j < v.entries.len() && i != j implies (#[trigger] v.entries[i]).name@
                    != (#[trigger] v.entries[j]).name@ by {
                if i < old_view.entries.len() && j < old_view.entries.len() {
                    assert(v.entries[i] == old_view.entries[i]);
                    assert(v.entries[j] == old_view.entries[j]);
                } else if i < old_view.entries.len() {
                    assert(v.entries[i] == old_view.entries[i]);
                } else {
                    assert(v.entries[j] == old_view.entries[j]);
                }
            }
            assert forall|n: Seq<char>| #[trigger] v.favorites.contains(n) <==> is_favorite_name(v.entries, n) by {
                if is_favorite_name(v.entries, n) {
                    let i = choose|i: int| 0 <= i < v.entries.len() && (#[trigger] v.entries[i]).name@ == n && v.entries[i].is_favorite;
                    assert(i < old_view.entries.len());
                    assert(v.entries[i] == old_view.entries[i]);
                    assert(is_favorite_name(old_view.entries, n));
                }
                if is_favorite_name(old_view.entries, n) {
                    let i = choose|i: int| 0 <= i < old_view.entries.len() && (#[trigger] old_view.entries[i]).name@ == n && old_view.entries[i].is_favorite;
                    assert(v.entries[i] == old_view.entries[i]);
                }
            }
        }
        Ok(())
    }

    /// The entry with this name.
    pub fn get_address(&self, name: &str) -> (r: Option<&AddressEntry>)
        ensures
            r is None <==> !has_name(self@.entries, name@),
            r matches Some(e) ==> e.name@ == name@ && exists|i: int| 0 <= i < self@.entries.len() && self@.entries[i] == *e,
    {
        match self.find(name) {
            Some(i) => Some(&self.entries[i]),
            None => None,
        }
    }

    /// All entries, in insertion order.
    pub fn list_addresses(&self) -> (r: Vec<&AddressEntry>)
        ensures
            r@.len() == self@.entries.len(),
            forall|i: int| 0 <= i < r@.len() ==> *r@[i] == self@.entries[i],
    {
        let mut r: Vec<&AddressEntry> = Vec::new();
        let mut i: usize = 0;
        while i < self.entries.len()
            invariant
                i <= self.entries@.len(),
                r@.len() == i,
                forall|j: int| 0 <= j < i ==> *r@[j] == self.entries@[j],
            decreases self.entries@.len() - i,
        {
            r.push(&self.entries[i]);
            i = i + 1;
        }
        r
    }

    fn find_favorite(&self, name: &str) -> (r: Option<usize>)
        ensures
            r matches Some(k) ==> k < self@.favorites.len() && self@.favorites[k as int] == name@,
            r is None ==> !self@.favorites.contains(name@),
    {
        let mut k: usize = 0;
        while k < self.favorites.len()
            invariant
                k <= self.favorites@.len(),
                forall|j: int| 0 <= j < k ==> (#[trigger] self.favorites@[j])@ != name@,
            decreases self.favorites@.len() - k,
        {
            if same_text(self.favorites[k].as_str(), name) {
                return Some(k);
            }
            k = k + 1;
        }
        proof {
            if self@.favorites.contains(name@) {
                let j = choose|j: int| 0 <= j < self@.favorites.len() && self@.favorites[j] == name@;
                assert(self.favorites@[j]@ == name@);
            }
        }
        None
    }

    /// Removes the entry with this name, and its name from the favorites index.
    /// Fails with `NotFound`, leaving the book unchanged, when no entry has the name.
    pub fn remove_address(&mut self, name: &str) -> (r: Result<(), WalletError>)
        requires
            old(self).wf(),
        ensures
            final(self).wf(),
            !has_name(old(self)@.entries, name@) ==> (r matches Err(WalletError::NotFound(_))) && final(self)@ == old(self)@,
            has_name(old(self)@.entries, name@) ==> r is Ok && (exists|i: int| 0 <= i < old(self)@.entries.len()
                && old(self)@.entries[i].name@ == name@ && final(self)@.entries == old(self)@.entries.remove(i)),
            has_name(old(self)@.entries, name@) && !old(self)@.favorites.contains(name@) ==> final(self)@.favorites == old(self)@.favorites,
            has_name(old(self)@.entries, name@) && old(self)@.favorites.contains(name@) ==> exists|k: int| 0 <= k < old(self)@.favorites.len()
                && old(self)@.favorites[k] == name@ && final(self)@.favorites == old(self)@.favorites.remove(k),
    {
        let i = match self.find(name) {
            Some(i) => i,
            None => {
                return Err(WalletError::NotFound(String::from_str(name)));
            },
        };
        let ghost old_view = self@;
        self.entries.remove(i);
        match self.find_favorite(name) {
            Some(k) => {
                self.favorites.remove(k);
                proof {
                    assert(self@.favorites =~= old_view.favorites.remove(k as int));
                    assert(self@.entries =~= old_view.entries.remove(i as int));
                    assert forall|n: Seq<char>| #[trigger] self@.favorites.contains(n) <==> is_favorite_name(self@.entries, n) by {
                        lemma_remove_keeps_distinct(old_view.favorites, k as int, n);
                        lemma_remove_entry(old_view.entries, i as int, n);
                    }
                    lemma_remove_keeps_distinct(old_view.favorites, k as int, name@);
                    lemma_remove_entry(old_view.entries, i as int, name@);
                }
            },
            None => {
                proof {
                    assert(self@.favorites =~= old_view.favorites);
                    assert(self@.entries =~= old_view.entries.remove(i as int));
                    assert forall|n: Seq<char>| #[trigger] self@.favorites.contains(n) <==> is_favorite_name(self@.entries, n) by {
                        lemma_remove_entry(old_view.entries, i as int, n);
                    }
                    lemma_remove_entry(old_view.entries, i as int, name@);
                }
            },
        }
        Ok(())
    }

    /// Counts one more use of the entry (the count stops at the largest u32) and records
    /// the time. Fails with `NotFound`, leaving the book unchanged, when no entry has the name.
    pub fn mark_as_used(&mut self, name: &str) -> (r: Result<(), WalletError>)
        requires
            old(self).wf(),
        ensures
            final(self).wf(),
            final(self)@.favorites == old(self)@.favorites,
            final(self)@.entries.len() == old(self)@.entries.len(),
            !has_name(old(self)@.entries, name@) ==> (r matches Err(WalletError::NotFound(_))) && final(self)@.entries == old(self)@.entries,
            has_name(old(self)@.entries, name@) ==> r is Ok,
            forall|i: int| 0 <= i < old(self)@.entries.len() ==> {
                let e = old(self)@.entries[i];
                let f = #[trigger] final(self)@.entries[i];
                if e.name@ == name@ {
                    &&& f.last_used is Some
                    &&& f.use_count == if e.use_count < u32::MAX { (e.use_count + 1) as u32 } else { e.use_count }
                    &&& f.name == e.name && f.address == e.address && f.label == e.label && f.notes == e.notes
                    &&& f.created_at == e.created_at && f.is_favorite == e.is_favorite
                } else {
                    f == e
                }
            },
    {
        let i = match self.find(name) {
            Some(i) => i,
            None => {
                return Err(WalletError::NotFound(String::from_str(name)));
            },
        };
        let ghost old_view = self@;
        let now = now_unix_seconds();
        let count = self.entries[i].use_count;
        self.entries[i].last_used = Some(now);
        self.entries[i].use_count = if count < u32::MAX { count + 1 } else { count };
        proof {
            assert(self@.favorites =~= old_view.favorites);
            assert forall|j: int| 0 <= j < old_view.entries.len() && j != i implies self@.entries[j] == old_view.entries[j] by {}
            lemma_same_keys(old_view, self@);
        }
        Ok(())
    }

    /// Flips the favorite mark of the entry and keeps the favorites index in step: a newly
    /// marked name goes to its end, an unmarked one leaves it. Returns the new mark.
    /// Fails with `NotFound`, leaving the book unchanged, when no entry has the name.
    pub fn toggle_favorite(&mut self, name: &str) -> (r: Result<bool, WalletError>)
        requires
            old(self).wf(),
        ensures
            final(self).wf(),
            !has_name(old(self)@.entries, name@) ==> (r matches Err(WalletError::NotFound(_))) && final(self)@ == old(self)@,
            has_name(old(self)@.entries, name@) ==> exists|i: int| {
                &&& 0 <= i < old(self)@.entries.len()
                &&& #[trigger] old(self)@.entries[i].name@ == name@
                &&& r == Ok::<bool, WalletError>(!old(self)@.entries[i].is_favorite)
                &&& final(self)@.entries == old(self)@.entries.update(i, AddressEntry {
                    is_favorite: !old(self)@.entries[i].is_favorite,
                    ..old(self)@.entries[i]
                })
                &&& old(self)@.entries[i].is_favorite ==> exists|k: int| 0 <= k < old(self)@.favorites.len()
                    && old(self)@.favorites[k] == name@ && final(self)@.favorites == old(self)@.favorites.remove(k)
                &&& !old(self)@.entries[i].is_favorite ==> final(self)@.favorites == old(self)@.favorites.push(name@)
            },
    {
        let i = match self.find(name) {
            Some(i) => i,
            None => {
                return Err(WalletError::NotFound(String::from_str(name)));
            },
        };
        let ghost old_view = self@;
        let was = self.entries[i].is_favorite;
        self.entries[i].is_favorite = !was;
        let ghost mid_entries = self@.entries;
        proof {
            assert(mid_entries =~= old_view.entries.update(i as int, AddressEntry { is_favorite: !was, ..old_view.entries[i as int] }));
            assert forall|n: Seq<char>| n != name@ implies (is_favorite_name(mid_entries, n) <==> is_favorite_name(old_view.entries, n)) by {
                if is_favorite_name(mid_entries, n) {
                    let j = choose|j: int| 0 <= j < mid_entries.len() && (#[trigger] mid_entries[j]).name@ == n && mid_entries[j].is_favorite;
                    assert(old_view.entries[j].name@ == n);
                }
                if is_favorite_name(old_view.entries, n) {
                    let j = choose|j: int| 0 <= j < old_view.entries.len() && (#[trigger] old_view.entries[j]).name@ == n && old_view.entries[j].is_favorite;
                    assert(mid_entries[j].name@ == n);
                }
            }
            if was {
                assert(is_favorite_name(old_view.entries, name@));
                assert(!is_favorite_name(mid_entries, name@)) by {
                    if is_favorite_name(mid_entries, name@) {
                        let j = choose|j: int| 0 <= j < mid_entries.len() && (#[trigger] mid_entries[j]).name@ == name@ && mid_entries[j].is_favorite;
                        assert(j != i);
                        assert(old_view.entries[j].name@ == old_view.entries[i as int].name@);
                    }
                }
            } else {
                assert(mid_entries[i as int].name@ == name@);
                assert(is_favorite_name(mid_entries, name@));
                assert(!is_favorite_name(old_view.entries, name@)) by {
                    if is_favorite_name(old_view.entries, name@) {
                        let j = choose|j: int| 0 <= j < old_view.entries.len() && (#[trigger] old_view.entries[j]).name@ == name@ && old_view.entries[j].is_favorite;
                        assert(j != i);
                    }
                }
            }
            assert forall|a: int, b: int|
                0 <= a < mid_entries.len() && 0 <= b < mid_entries.len() && a != b implies (#[trigger] mid_entries[a]).name@
                    != (#[trigger] mid_entries[b]).name@ by {
                assert(mid_entries[a].name == old_view.entries[a].name);
                assert(mid_entries[b].name == old_view.entries[b].name);
            }
        }
        if was {
            match self.find_favorite(name) {
                Some(k) => {
                    self.favorites.remove(k);
                    proof {
                        assert(self@.favorites =~= old_view.favorites.remove(k as int));
                        assert forall|n: Seq<char>| #[trigger] self@.favorites.contains(n) <==> is_favorite_name(self@.entries, n) by {
                            lemma_remove_keeps_distinct(old_view.favorites, k as int, n);
                        }
                        lemma_remove_keeps_distinct(old_view.favorites, k as int, name@);
                    }
                },
                None => {
                    proof {
                        assert(false);
                    }
                },
            }
        } else {
            self.favorites.push(String::from_str(name));
            proof {
                assert(self@.favorites =~= old_view.favorites.push(name@));
                assert(!old_view.favorites.contains(name@));
                assert forall|n: Seq<char>| #[trigger] self@.favorites.contains(n) <==> is_favorite_name(self@.entries, n) by {
                    if self@.favorites.contains(n) && n != name@ {
                        let k = choose|k: int| 0 <= k < self@.favorites.len() && self@.favorites[k] == n;
                        assert(old_view.favorites[k] == n);
                    }
                    if n != name@ && old_view.favorites.contains(n) {
                        let k = choose|k: int| 0 <= k < old_view.favorites.len() && old_view.favorites[k] == n;
                        assert(self@.favorites[k] == n);
                    }
                    assert(self@.favorites[old_view.favorites.len() as int] == name@);
                }
                assert forall|a: int, b: int| 0 <= a < self@.favorites.len() && 0 <= b < self@.favorites.len() && a != b
                    implies self@.favorites[a] != self@.favorites[b] by {
                    if a == old_view.favorites.len() {
                        assert(old_view.favorites[b] == self@.favorites[b]);
                    } else if b == old_view.favorites.len() {
                        assert(old_view.favorites[a] == self@.favorites[a]);
                    }
                }
            }
        }
        assert(old_view.entries[i as int].name@ == name@);
        Ok(!was)
    }

    /// Changes fields of an entry; absent arguments leave theirs alone. Everything is checked
    /// first, and on failure the book is unchanged: `NotFound` when no entry has `name`,
    /// `DuplicateName` when `new_name` belongs to another entry, `InvalidAddress` when the
    /// new address does not validate. A rename also renames the name in the favorites index.
    pub fn update_entry(
        &mut self,
        name: &str,
        new_name: Option<String>,
        new_address: Option<String>,
        new_label: Option<String>,
        new_notes: Option<String>,
    ) -> (r: Result<(), WalletError>)
        requires
            old(self).wf(),
        ensures
            final(self).wf(),
            r is Err ==> final(self)@ == old(self)@,
            !has_name(old(self)@.entries, name@) ==> (r matches Err(WalletError::NotFound(_))),
            has_name(old(self)@.entries, name@) && (new_name matches Some(n) && n@ != name@ && has_name(
                old(self)@.entries,
                n@,
            )) ==> (r matches Err(WalletError::DuplicateName(_))),
            has_name(old(self)@.entries, name@) && !(new_name matches Some(n) && n@ != name@ && has_name(
                old(self)@.entries,
                n@,
            )) && (new_address matches Some(a) && !address_is_valid(a@)) ==> (r matches Err(
                WalletError::InvalidAddress(_),
            )),
            r is Ok ==> exists|i: int| {
                &&& 0 <= i < old(self)@.entries.len()
                &&& #[trigger] old(self)@.entries[i].name@ == name@
                &&& final(self)@.entries == old(self)@.entries.update(i, AddressEntry {
                    name: match new_name { Some(n) => n, None => old(self)@.entries[i].name },
                    address: match new_address { Some(a) => a, None => old(self)@.entries[i].address },
                    label: match new_label { Some(l) => Some(l), None => old(self)@.entries[i].label },
                    notes: match new_notes { Some(n) => Some(n), None => old(self)@.entries[i].notes },
                    ..old(self)@.entries[i]
                })
                &&& final(self)@.favorites == old(self)@.favorites.map_values(|f: Seq<char>|
                    if f == name@ && new_name is Some { new_name->Some_0@ } else { f })
            },
            r is Ok <==> has_name(old(self)@.entries, name@) && !(new_name matches Some(n) && n@ != name@
                && has_name(old(self)@.entries, n@)) && !(new_address matches Some(a) && !address_is_valid(a@)),
    {
        let i = match self.find(name) {
            Some(i) => i,
            None => {
                return Err(WalletError::NotFound(String::from_str(name)));
            },
        };
        if let Some(n) = &new_name {
            if !same_text(n.as_str(), name) && self.find(n.as_str()).is_some() {
                return Err(WalletError::DuplicateName(n.clone()));
            }
        }
        if let Some(a) = &new_address {
            if !validate_address(a.as_str()) {
                return Err(WalletError::InvalidAddress(String::from_str("Invalid address format: ").concat(a.as_str())));
            }
        }
        let ghost old_view = self@;
        let ghost old_favs = self.favorites@;
        let fav_pos = self.find_favorite(name);
        if let Some(n) = new_name {
            if let Some(k) = fav_pos {
                self.favorites.set(k, n.clone());
            }
            self.entries[i].name = n;
        }
        if let Some(a) = new_address {
            self.entries[i].address = a;
        }
        if let Some(l) = new_label {
            self.entries[i].label = Some(l);
        }
        if let Some(n) = new_notes {
            self.entries[i].notes = Some(n);
        }
        proof {
            let v = self@;
            let e = old_view.entries[i as int];
            let nn = v.entries[i as int].name@;
            assert(v.entries =~= old_view.entries.update(i as int, v.entries[i as int]));
            assert(old_view.favorites.no_duplicates());
            // the favorites index, renamed
            assert(v.favorites =~= old_view.favorites.map_values(|f: Seq<char>|
                if f == name@ && new_name is Some { new_name->Some_0@ } else { f })) by {
                assert forall|k: int| 0 <= k < v.favorites.len() implies v.favorites[k] == (if old_view.favorites[k] == name@
                    && new_name is Some { new_name->Some_0@ } else { old_view.favorites[k] }) by {
                    if fav_pos is Some && new_name is Some && k == fav_pos->Some_0 {
                    } else if old_view.favorites[k] == name@ {
                        assert(old_favs[k]@ == name@);
                    }
                }
            }
            // other entries keep their names, none of which is the new name
            assert forall|j: int| 0 <= j < v.entries.len() && j != i implies #[trigger] v.entries[j] == old_view.entries[j]
                && v.entries[j].name@ != nn by {
                assert(old_view.entries[j].name@ != e.name@);
            }
            assert forall|a: int, b: int|
                0 <= a < v.entries.len() && 0 <= b < v.entries.len() && a != b implies (#[trigger] v.entries[a]).name@
                    != (#[trigger] v.entries[b]).name@ by {}
            assert forall|n: Seq<char>| #[trigger] v.favorites.contains(n) <==> is_favorite_name(v.entries, n) by {
                if v.favorites.contains(n) {
                    let k = choose|k: int| 0 <= k < v.favorites.len() && v.favorites[k] == n;
                    if old_view.favorites[k] == name@ && new_name is Some {
                        assert(old_view.favorites.contains(name@));
                        assert(is_favorite_name(old_view.entries, name@));
                        assert(e.is_favorite) by {
                            let j = choose|j: int| 0 <= j < old_view.entries.len() && (#[trigger] old_view.entries[j]).name@ == name@ && old_view.entries[j].is_favorite;
                            assert(j == i);
                        }
                        assert(v.entries[i as int].name@ == n);
                    } else {
                        assert(old_view.favorites.contains(old_view.favorites[k]));
                        let j = choose|j: int| 0 <= j < old_view.entries.len() && (#[trigger] old_view.entries[j]).name@ == n && old_view.entries[j].is_favorite;
                        if j == i {
                            assert(new_name is None);
                        }
                        assert(v.entries[j].name@ == n);
                    }
                }
                if is_favorite_name(v.entries, n) {
                    let j = choose|j: int| 0 <= j < v.entries.len() && (#[trigger] v.entries[j]).name@ == n && v.entries[j].is_favorite;
                    if j == i {
                        assert(is_favorite_name(old_view.entries, name@));
                        assert(old_view.favorites.contains(name@));
                        let k = choose|k: int| 0 <= k < old_view.favorites.len() && old_view.favorites[k] == name@;
                        assert(v.favorites[k] == n);
                    } else {
                        assert(v.entries[j] == old_view.entries[j]);
                        assert(old_view.entries[j].name@ != e.name@);
                        assert(is_favorite_name(old_view.entries, n));
                        assert(old_view.favorites.contains(n));
                        let k = choose|k: int| 0 <= k < old_view.favorites.len() && old_view.favorites[k] == n;
                        assert(n != name@);
                        assert(v.favorites[k] == n);
                    }
                }
            }
            assert forall|a: int, b: int| 0 <= a < v.favorites.len() && 0 <= b < v.favorites.len() && a != b
                implies v.favorites[a] != v.favorites[b] by {
                if new_name is Some && old_view.favorites[a] == name@ {
                    assert(old_view.favorites[b] != name@);
                    assert(old_view.favorites.contains(old_view.favorites[b]));
                    let j = choose|j: int| 0 <= j < old_view.entries.len() && (#[trigger] old_view.entries[j]).name@ == old_view.favorites[b] && old_view.entries[j].is_favorite;
                    assert(j != i);
                } else if new_name is Some && old_view.favorites[b] == name@ {
                    assert(old_view.favorites.contains(old_view.favorites[a]));
                    let j = choose|j: int| 0 <= j < old_view.entries.len() && (#[trigger] old_view.entries[j]).name@ == old_view.favorites[a] && old_view.entries[j].is_favorite;
                    assert(j != i);
                }
            }
        }
        Ok(())
    }

    /// The first entry, in insertion order, whose address is `address`.
    pub fn get_address_by_address(&self, address: &str) -> (r: Option<&AddressEntry>)
        ensures
            r is None <==> forall|i: int| 0 <= i < self@.entries.len() ==> (#[trigger] self@.entries[i]).address@ != address@,
            r matches Some(e) ==> exists|i: int| {
                &&& 0 <= i < self@.entries.len()
                &&& self@.entries[i] == *e
                &&& e.address@ == address@
                &&& forall|j: int| 0 <= j < i ==> (#[trigger] self@.entries[j]).address@ != address@
            },
    {
        let mut i: usize = 0;
        while i < self.entries.len()
            invariant
                i <= self.entries@.len(),
                forall|j: int| 0 <= j < i ==> (#[trigger] self.entries@[j]).address@ != address@,
            decreases self.entries@.len() - i,
        {
            if same_text(self.entries[i].address.as_str(), address) {
                return Some(&self.entries[i]);
            }
            i = i + 1;
        }
        None
    }

    fn entry_matches_exec(e: &AddressEntry, q: &str) -> (r: bool)
        ensures
            r == entry_matches(*e, q@),
    {
        if contains_text(lowercase(e.name.as_str()).as_str(), q) {
            return true;
        }
        if contains_text(lowercase(e.address.as_str()).as_str(), q) {
            return true;
        }
        if let Some(l) = &e.label {
            if contains_text(lowercase(l.as_str()).as_str(), q) {
                return true;
            }
        }
        if let Some(n) = &e.notes {
            if contains_text(lowercase(n.as_str()).as_str(), q) {
                return true;
            }
        }
        false
    }

    /// The entries whose name, address, label or notes hold the query, letters lowered on
    /// both sides, in insertion order.
    pub fn search_addresses(&self, query: &str) -> (r: Vec<&AddressEntry>)
        ensures
            r@.len() == matching_entries(self@.entries, lower_of(query@)).len(),
            forall|j: int| 0 <= j < r@.len() ==> *r@[j] == matching_entries(self@.entries, lower_of(query@))[j],
    {
        let q = lowercase(query);
        let mut r: Vec<&AddressEntry> = Vec::new();
        let mut i: usize = 0;
        while i < self.entries.len()
            invariant
                i <= self.entries@.len(),
                q@ == lower_of(query@),
                r@.len() == matching_entries(self.entries@.subrange(0, i as int), q@).len(),
                forall|j: int| 0 <= j < r@.len() ==> *r@[j] == matching_entries(self.entries@.subrange(0, i as int), q@)[j],
            decreases self.entries@.len() - i,
        {
            assert(self.entries@.subrange(0, i + 1).drop_last() =~= self.entries@.subrange(0, i as int));
            if Self::entry_matches_exec(&self.entries[i], q.as_str()) {
                r.push(&self.entries[i]);
            }
            i = i + 1;
        }
        assert(self.entries@.subrange(0, self.entries@.len() as int) =~= self.entries@);
        r
    }

    /// The favorite entries, in the order they were marked.
    pub fn get_favorites(&self) -> (r: Vec<&AddressEntry>)
        requires
            self.wf(),
        ensures
            r@.len() == self@.favorites.len(),
            forall|k: int| 0 <= k < r@.len() ==> (#[trigger] r@[k]).name@ == self@.favorites[k] && exists|i: int|
                0 <= i < self@.entries.len() && self@.entries[i] == *r@[k],
    {
        let mut r: Vec<&AddressEntry> = Vec::new();
        let mut k: usize = 0;
        while k < self.favorites.len()
            invariant
                self.wf(),
                k <= self.favorites@.len(),
                r@.len() == k,
                forall|j: int| 0 <= j < k ==> (#[trigger] r@[j]).name@ == self@.favorites[j] && exists|i: int|
                    0 <= i < self@.entries.len() && self@.entries[i] == *r@[j],
            decreases self.favorites@.len() - k,
        {
            proof {
                assert(self@.favorites[k as int] == self.favorites@[k as int]@);
                assert(self@.favorites.contains(self@.favorites[k as int]));
            }
            match self.find(self.favorites[k].as_str()) {
                Some(i) => {
                    r.push(&self.entries[i]);
                },
                None => {
                    proof {
                        assert(false);
                    }
                },
            }
            k = k + 1;
        }
        r
    }

    fn key_below(&self, a: usize, b: usize, recency: bool) -> (r: bool)
        requires
            a < self@.entries.len(),
            b < self@.entries.len(),
        ensures
            r == ((position_key(self@.entries, recency))(a) < (position_key(self@.entries, recency))(b)),
    {
        if recency {
            match (self.entries[a].last_used, self.entries[b].last_used) {
                (Some(x), Some(y)) => x < y,
                (None, Some(_)) => true,
                _ => false,
            }
        } else {
            self.entries[a].use_count < self.entries[b].use_count
        }
    }

    fn order_by(&self, recency: bool) -> (r: Vec<usize>)
        ensures
            r@ == position_order(self@.entries, recency),
            r@.len() == self@.entries.len(),
            forall|j: int| 0 <= j < r@.len() ==> r@[j] < self@.entries.len(),
    {
        let n = self.entries.len();
        let ghost key = position_key(self@.entries, recency);
        let ghost all = positions(n as nat);
        let mut sorted: Vec<usize> = Vec::new();
        let mut i: usize = 0;
        while i < n
            invariant
                n == self@.entries.len(),
                i <= n,
                key == position_key(self@.entries, recency),
                all == positions(n as nat),
                sorted@ == sort_desc(all.subrange(0, i as int), key),
                sorted@.len() == i,
                forall|j: int| 0 <= j < sorted@.len() ==> sorted@[j] < i,
            decreases n - i,
        {
            let mut p: usize = 0;
            while p < sorted.len() && !self.key_below(sorted[p], i, recency)
                invariant
                    n == self@.entries.len(),
                    i < n,
                    key == position_key(self@.entries, recency),
                    p <= sorted@.len(),
                    forall|j: int| 0 <= j < sorted@.len() ==> sorted@[j] < i,
                    forall|j: int| 0 <= j < p ==> key(#[trigger] sorted@[j]) >= key(i),
                decreases sorted@.len() - p,
            {
                p = p + 1;
            }
            proof {
                assert(all.subrange(0, i + 1).drop_last() =~= all.subrange(0, i as int));
                assert(all.subrange(0, i + 1).last() == i);
                assert(first_below(sorted@, i, key, p as int));
                lemma_insert_desc_at(sorted@, i, key, p as int);
            }
            sorted.insert(p, i);
            i = i + 1;
        }
        assert(all.subrange(0, n as int) =~= all);
        sorted
    }

    /// Up to `limit` entries, most used first; equal counts keep insertion order.
    pub fn get_frequently_used(&self, limit: usize) -> (r: Vec<&AddressEntry>)
        ensures
            r@.len() == if limit < self@.entries.len() { limit as int } else { self@.entries.len() as int },
            forall|j: int| 0 <= j < r@.len() ==> *r@[j] == self@.entries[frequency_order(self@.entries)[j] as int],
    {
        let order = self.order_by(false);
        let mut r: Vec<&AddressEntry> = Vec::new();
        let mut j: usize = 0;
        while j < order.len() && j < limit
            invariant
                order@ == frequency_order(self@.entries),
                order@.len() == self@.entries.len(),
                forall|t: int| 0 <= t < order@.len() ==> order@[t] < self@.entries.len(),
                j <= order@.len(),
                j <= limit,
                r@.len() == j,
                forall|t: int| 0 <= t < j ==> *r@[t] == self@.entries[order@[t] as int],
            decreases order@.len() - j,
        {
            r.push(&self.entries[order[j]]);
            j = j + 1;
        }
        r
    }

    /// Up to `limit` entries that have been used, most recently used first; equal times
    /// keep insertion order.
    pub fn get_recently_used(&self, limit: usize) -> (r: Vec<&AddressEntry>)
        ensures
            r@.len() <= limit,
            r@.len() <= self@.entries.len(),
            forall|j: int| 0 <= j < r@.len() ==> *r@[j] == self@.entries[recency_order(self@.entries)[j] as int]
                && (*r@[j]).last_used is Some,
            r@.len() < limit && r@.len() < self@.entries.len() ==> self@.entries[recency_order(self@.entries)[r@.len() as int] as int].last_used is None,
    {
        let order = self.order_by(true);
        let mut r: Vec<&AddressEntry> = Vec::new();
        let mut j: usize = 0;
        let mut done = false;
        while j < order.len() && j < limit && !done
            invariant
                done ==> j < order@.len() && self@.entries[order@[j as int] as int].last_used is None,
                order@ == recency_order(self@.entries),
                order@.len() == self@.entries.len(),
                forall|t: int| 0 <= t < order@.len() ==> order@[t] < self@.entries.len(),
                j <= order@.len(),
                j <= limit,
                r@.len() == j,
                forall|t: int| 0 <= t < j ==> *r@[t] == self@.entries[order@[t] as int] && (*r@[t]).last_used is Some,
            decreases order@.len() - j + if done { 0int } else { 1int },
        {
            let e = &self.entries[order[j]];
            if e.last_used.is_none() {
                done = true;
            } else {
                r.push(e);
                j = j + 1;
            }
        }
        r
    }

    /// The book as CSV: a header line, then one line per entry in insertion order.
    pub fn export_to_csv(&self) -> (r: String)
        ensures
            r@ == csv_header() + csv_rows(self@.entries),
    {
        let mut csv = String::from_str("Name,Address,Label,Notes,Created,Last Used,Use Count,Is Favorite\n");
        let mut i: usize = 0;
        while i < self.entries.len()
            invariant
                i <= self.entries@.len(),
                csv@ == csv_header() + csv_rows(self.entries@.subrange(0, i as int)),
            decreases self.entries@.len() - i,
        {
            assert(self.entries@.subrange(0, i + 1).drop_last() =~= self.entries@.subrange(0, i as int));
            let row = csv_row_exec(&self.entries[i]);
            csv.append(row.as_str());
            i = i + 1;
            assert(csv@ =~= csv_header() + csv_rows(self.entries@.subrange(0, i as int)));
        }
        assert(self.entries@.subrange(0, self.entries@.len() as int) =~= self.entries@);
        csv
    }
}

} // verus!
