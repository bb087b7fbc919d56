//! Building the HTML pages that the server writes itself: status pages and
//! directory listings.

use vstd::prelude::*;
use vstd::string::*;
use vstd::utf8::*;
use vstd::seq_lib::*;
use crate::clock::{in_calendar, local_stamp};
use crate::exception::Exception;
use crate::pages::{
    DIR_ROW_1, DIR_ROW_2, DIR_ROW_3, DIR_ROW_4, FILE_ROW_1, FILE_ROW_2, FILE_ROW_3, FILE_ROW_4,
    FILE_ROW_5, LISTING_CSS, LISTING_HEAD, LISTING_HEADING_CLOSE, LISTING_HEADING_OPEN,
    LISTING_TABLE_CLOSE, LISTING_TABLE_OPEN, LISTING_TITLE, PAGE_1, PAGE_2, PAGE_3, PAGE_4,
    PAGE_5, STAMP_FORMAT, STATUS_BODY_1, STATUS_BODY_2, STATUS_BODY_3, STATUS_CSS,
};
use crate::param::{reason_phrase, status_text};
use crate::text::{decimal, digit, digit_char, push_char, push_decimal, string_from, to_chars};

verus! {

/// The number of bytes in one unit of each rank: B, KB, MB, GB, TB.
pub open spec fn unit_bytes(rank: nat) -> nat {
    if rank == 0 {
        1
    } else if rank == 1 {
        1024
    } else if rank == 2 {
        1_048_576
    } else if rank == 3 {
        1_073_741_824
    } else {
        1_099_511_627_776
    }
}

/// The name of the unit of each rank.
pub open spec fn unit_name(rank: nat) -> Seq<char> {
    if rank == 0 {
        "B"@
    } else if rank == 1 {
        "KB"@
    } else if rank == 2 {
        "MB"@
    } else if rank == 3 {
        "GB"@
    } else {
        "TB"@
    }
}

/// The rank of the unit in which a size is shown: the largest unit that the
/// size reaches, and TB for anything beyond.
pub open spec fn unit_rank(size: nat) -> nat {
    if size < unit_bytes(1) {
        0
    } else if size < unit_bytes(2) {
        1
    } else if size < unit_bytes(3) {
        2
    } else if size < unit_bytes(4) {
        3
    } else {
        4
    }
}

/// `n / d` rounded to the nearest whole number, a tie going to the even one.
pub open spec fn rounded(n: nat, d: nat) -> nat {
    let q = n / d;
    let r = n % d;
    if 2 * r < d {
        q
    } else if 2 * r > d {
        q + 1
    } else if q % 2 == 0 {
        q
    } else {
        q + 1
    }
}

/// The gap between neighbouring double-precision numbers around `size`:
/// one up to 2^53, and doubling with each further power of two.
pub open spec fn float_gap(size: nat) -> nat {
    if size < 0x20_0000_0000_0000 {
        1
    } else if size < 0x40_0000_0000_0000 {
        2
    } else if size < 0x80_0000_0000_0000 {
        4
    } else if size < 0x100_0000_0000_0000 {
        8
    } else if size < 0x200_0000_0000_0000 {
        16
    } else if size < 0x400_0000_0000_0000 {
        32
    } else if size < 0x800_0000_0000_0000 {
        64
    } else if size < 0x1000_0000_0000_0000 {
        128
    } else if size < 0x2000_0000_0000_0000 {
        256
    } else if size < 0x4000_0000_0000_0000 {
        512
    } else if size < 0x8000_0000_0000_0000 {
        1024
    } else {
        2048
    }
}

/// A size as the double-precision number nearest to it, a tie going to the
/// even one. Sizes are measured as such numbers, so a size of 2^53 bytes or
/// more is shown as its nearest neighbour among them.
pub open spec fn measured(size: nat) -> nat {
    rounded(size, float_gap(size)) * float_gap(size)
}

/// A size in tenths of its unit, rounded.
pub open spec fn tenths(size: nat) -> nat {
    rounded(measured(size) * 10, unit_bytes(unit_rank(size)))
}

/// A size as it is shown: the number in its unit with one decimal place, a
/// space, and the unit's name, such as `9.7 KB`.
pub open spec fn file_size_text(size: nat) -> Seq<char> {
    decimal(tenths(size) / 10) + seq!['.', digit((tenths(size) % 10) as int), ' '] + unit_name(
        unit_rank(size),
    )
}

/// `n / d` rounded to the nearest whole number, a tie going to the even one.
fn round_to_even(n: u128, d: u128) -> (q: u128)
    requires
        0 < d <= 0x100_0000_0000,
        n <= 0x1000_0000_0000_0000_0000,
    ensures
        q == rounded(n as nat, d as nat),
        q <= n + 1,
{
    let q: u128 = n / d;
    let r: u128 = n % d;
    if 2 * r < d {
        q
    } else if 2 * r > d {
        q + 1
    } else if q % 2 == 0 {
        q
    } else {
        q + 1
    }
}

/// The gap between neighbouring double-precision numbers around `size`.
fn gap_of(size: u64) -> (gap: u128)
    ensures
        gap == float_gap(size as nat),
        1 <= gap <= 2048,
{
    if size < 0x20_0000_0000_0000 {
        1
    } else if size < 0x40_0000_0000_0000 {
        2
    } else if size < 0x80_0000_0000_0000 {
        4
    } else if size < 0x100_0000_0000_0000 {
        8
    } else if size < 0x200_0000_0000_0000 {
        16
    } else if size < 0x400_0000_0000_0000 {
        32
    } else if size < 0x800_0000_0000_0000 {
        64
    } else if size < 0x1000_0000_0000_0000 {
        128
    } else if size < 0x2000_0000_0000_0000 {
        256
    } else if size < 0x4000_0000_0000_0000 {
        512
    } else if size < 0x8000_0000_0000_0000 {
        1024
    } else {
        2048
    }
}

/// Renders a size in bytes with a binary unit and one decimal place.
pub fn format_file_size(size: u64) -> (text: String)
    ensures
        text@ == file_size_text(size as nat),
{
    let (unit, name): (u64, &'static str) = if size < 1024 {
        (1, "B")
    } else if size < 1_048_576 {
        (1024, "KB")
    } else if size < 1_073_741_824 {
        (1_048_576, "MB")
    } else if size < 1_099_511_627_776 {
        (1_073_741_824, "GB")
    } else {
        (1_099_511_627_776, "TB")
    };
    assert(unit == unit_bytes(unit_rank(size as nat)));
    assert(name@ == unit_name(unit_rank(size as nat)));
    let gap: u128 = gap_of(size);
    let whole: u128 = round_to_even(size as u128, gap);
    assert(whole * gap <= 0x1_0000_0000_0000_0000_0000) by (nonlinear_arith)
        requires
            whole <= 0x1_0000_0000_0000_0000,
            gap <= 2048,
    {}
    let exact: u128 = whole * gap;
    assert(exact == measured(size as nat));
    assert(exact <= size + gap) by (nonlinear_arith)
        requires
            exact == whole * gap,
            whole == rounded(size as nat, gap as nat),
            gap >= 1,
    {
        let q = (size as nat) / (gap as nat);
        let r = (size as nat) % (gap as nat);
        assert(size as nat == q * gap + r);
        assert(whole <= q + 1);
        assert(whole * gap <= (q + 1) * gap);
        assert((q + 1) * gap == q * gap + gap);
    }
    let shown: u128 = round_to_even(exact * 10, unit as u128);
    assert(shown == tenths(size as nat));
    assert(shown / 10 <= u64::MAX);
    let mut text = String::new();
    push_decimal(&mut text, (shown / 10) as u64);
    push_char(&mut text, '.');
    push_char(&mut text, digit_char((shown % 10) as u64));
    push_char(&mut text, ' ');
    text.append(name);
    assert(text@ =~= file_size_text(size as nat));
    text
}

/// One entry of a directory, as the file system reports it: its name within
/// the directory, whether it is itself a directory, its size in bytes, and
/// when it was last modified, in seconds since 1970.
pub struct DirEntry {
    pub name: String,
    pub is_dir: bool,
    pub size: u64,
    pub modified: i64,
}

/// A directory entry as mathematical values.
pub struct DirEntryView {
    pub name: Seq<char>,
    pub is_dir: bool,
    pub size: u64,
    pub modified: i64,
}

impl View for DirEntry {
    type V = DirEntryView;

    open spec fn view(&self) -> DirEntryView {
        DirEntryView {
            name: self.name@,
            is_dir: self.is_dir,
            size: self.size,
            modified: self.modified,
        }
    }
}

/// The views of a sequence of entries.
pub open spec fn entry_views(entries: Seq<DirEntry>) -> Seq<DirEntryView> {
    entries.map_values(|e: DirEntry| e@)
}

/// Whether `a` comes strictly before `b` in dictionary order, byte by byte.
pub open spec fn bytes_lt(a: Seq<u8>, b: Seq<u8>) -> bool
    decreases a.len(),
{
    if b.len() == 0 {
        false
    } else if a.len() == 0 {
        true
    } else if a[0] != b[0] {
        a[0] < b[0]
    } else {
        bytes_lt(a.drop_first(), b.drop_first())
    }
}

/// Whether the name `a` comes strictly before the name `b`. Names are
/// ordered as the byte strings that encode them, which is how the file
/// system and `str` order them.
pub open spec fn name_lt(a: Seq<char>, b: Seq<char>) -> bool {
    bytes_lt(encode_utf8(a), encode_utf8(b))
}

/// Whether entry `a` comes strictly before entry `b` in a listing:
/// directories before files, and by name within each kind.
pub open spec fn entry_lt(a: DirEntryView, b: DirEntryView) -> bool {
    (a.is_dir && !b.is_dir) || (a.is_dir == b.is_dir && name_lt(a.name, b.name))
}

/// Whether a listing is in order: no entry comes strictly before one that
/// stands ahead of it.
pub open spec fn listing_sorted(entries: Seq<DirEntryView>) -> bool {
    forall|i: int, j: int| 0 <= i < j < entries.len() ==> !entry_lt(entries[j], entries[i])
}

/// Dictionary order is asymmetric.
pub proof fn lemma_bytes_lt_asymmetric(a: Seq<u8>, b: Seq<u8>)
    requires
        bytes_lt(a, b),
    ensures
        !bytes_lt(b, a),
    decreases a.len(),
{
    if a.len() > 0 && b.len() > 0 && a[0] == b[0] {
        lemma_bytes_lt_asymmetric(a.drop_first(), b.drop_first());
    }
}

/// Where `a` is not before `b` and `b` is not before `c`, `a` is not before
/// `c`.
pub proof fn lemma_bytes_lt_chain(a: Seq<u8>, b: Seq<u8>, c: Seq<u8>)
    requires
        !bytes_lt(a, b),
        !bytes_lt(b, c),
    ensures
        !bytes_lt(a, c),
    decreases a.len(),
{
    if a.len() > 0 && b.len() > 0 && c.len() > 0 && a[0] == b[0] && b[0] == c[0] {
        lemma_bytes_lt_chain(a.drop_first(), b.drop_first(), c.drop_first());
    }
}

/// The order of entries is asymmetric.
pub proof fn lemma_entry_lt_asymmetric(a: DirEntryView, b: DirEntryView)
    requires
        entry_lt(a, b),
    ensures
        !entry_lt(b, a),
{
    if a.is_dir == b.is_dir {
        lemma_bytes_lt_asymmetric(encode_utf8(a.name), encode_utf8(b.name));
    }
}

/// Where `a` is not before `b` and `b` is not before `c`, `a` is not before
/// `c`.
pub proof fn lemma_entry_lt_chain(a: DirEntryView, b: DirEntryView, c: DirEntryView)
    requires
        !entry_lt(a, b),
        !entry_lt(b, c),
    ensures
        !entry_lt(a, c),
{
    if a.is_dir == b.is_dir && b.is_dir == c.is_dir {
        lemma_bytes_lt_chain(encode_utf8(a.name), encode_utf8(b.name), encode_utf8(c.name));
    }
}

/// Whether the name `a` comes strictly before the name `b`.
pub fn name_before(a: &str, b: &str) -> (before: bool)
    ensures
        before == name_lt(a@, b@),
{
    let x = a.as_bytes();
    let y = b.as_bytes();
    let mut i: usize = 0;
    assert(x@.skip(0) =~= x@ && y@.skip(0) =~= y@);
    while i < x.len() && i < y.len()
        invariant
            i <= x.len(),
            i <= y.len(),
            x@ == encode_utf8(a@),
            y@ == encode_utf8(b@),
            bytes_lt(x@, y@) == bytes_lt(x@.skip(i as int), y@.skip(i as int)),
        decreases x.len() - i,
    {
        proof {
            assert(x@.skip(i as int).len() == x.len() - i);
            assert(y@.skip(i as int).len() == y.len() - i);
            assert(x@.skip(i as int).drop_first() =~= x@.skip(i as int + 1));
            assert(y@.skip(i as int).drop_first() =~= y@.skip(i as int + 1));
            assert(x@.skip(i as int)[0] == x@[i as int]);
            assert(y@.skip(i as int)[0] == y@[i as int]);
        }
        if x[i] != y[i] {
            return x[i] < y[i];
        }
        i += 1;
    }
    assert(x@.skip(i as int).len() == x.len() - i);
    assert(y@.skip(i as int).len() == y.len() - i);
    i < y.len()
}

/// Whether entry `a` comes strictly before entry `b` in a listing.
pub fn entry_before(a: &DirEntry, b: &DirEntry) -> (before: bool)
    ensures
        before == entry_lt(a@, b@),
{
    if a.is_dir != b.is_dir {
        a.is_dir
    } else {
        name_before(a.name.as_str(), b.name.as_str())
    }
}

/// `entries` with `e` set in just behind the last of them that it does not
/// come strictly before.
pub open spec fn placed(entries: Seq<DirEntryView>, e: DirEntryView) -> Seq<DirEntryView>
    decreases entries.len(),
{
    if entries.len() > 0 && entry_lt(e, entries.last()) {
        placed(entries.drop_last(), e).push(entries.last())
    } else {
        entries.push(e)
    }
}

/// The entries in the order of a listing: each entry in turn is placed
/// among those that stood before it. Entries that are equal in the order
/// keep their places relative to each other.
pub open spec fn listing_order(entries: Seq<DirEntryView>) -> Seq<DirEntryView>
    decreases entries.len(),
{
    if entries.len() == 0 {
        entries
    } else {
        placed(listing_order(entries.drop_last()), entries.last())
    }
}

/// Where `e` comes strictly before every entry from index `at` on and not
/// before the entry ahead of `at`, placing it sets it in at `at`.
pub proof fn lemma_placed_at(entries: Seq<DirEntryView>, e: DirEntryView, at: int)
    requires
        0 <= at <= entries.len(),
        forall|k: int| at <= k < entries.len() ==> entry_lt(e, entries[k]),
        at == 0 || !entry_lt(e, entries[at - 1]),
    ensures
        placed(entries, e) == entries.insert(at, e),
    decreases entries.len(),
{
    if at < entries.len() {
        let shorter = entries.drop_last();
        lemma_placed_at(shorter, e, at);
        assert(shorter.insert(at, e).push(entries.last()) =~= entries.insert(at, e));
    } else {
        assert(entries.push(e) =~= entries.insert(at, e));
    }
}

/// The index at which placing `e` among `entries` sets it in.
pub open spec fn place_index(entries: Seq<DirEntryView>, e: DirEntryView) -> int
    decreases entries.len(),
{
    if entries.len() > 0 && entry_lt(e, entries.last()) {
        place_index(entries.drop_last(), e)
    } else {
        entries.len() as int
    }
}

/// Placing an entry sets it in at `place_index`: behind every entry that it
/// does not come strictly before, and ahead of those that it does.
pub proof fn lemma_place_index(entries: Seq<DirEntryView>, e: DirEntryView)
    ensures
        0 <= place_index(entries, e) <= entries.len(),
        forall|k: int| place_index(entries, e) <= k < entries.len() ==> entry_lt(e, entries[k]),
        place_index(entries, e) == 0 || !entry_lt(e, entries[place_index(entries, e) - 1]),
        placed(entries, e) == entries.insert(place_index(entries, e), e),
    decreases entries.len(),
{
    if entries.len() > 0 && entry_lt(e, entries.last()) {
        let shorter = entries.drop_last();
        lemma_place_index(shorter, e);
        let at = place_index(shorter, e);
        assert forall|k: int| at <= k < entries.len() implies entry_lt(e, entries[k]) by {
            if k < shorter.len() {
                assert(entries[k] == shorter[k]);
            }
        }
        if at > 0 {
            assert(entries[at - 1] == shorter[at - 1]);
        }
    }
    lemma_placed_at(entries, e, place_index(entries, e));
}

/// Placing an entry among entries that are in order leaves them in order.
pub proof fn lemma_placed_keeps_order(entries: Seq<DirEntryView>, e: DirEntryView)
    requires
        listing_sorted(entries),
    ensures
        listing_sorted(placed(entries, e)),
{
    lemma_place_index(entries, e);
    let at = place_index(entries, e);
    let next = entries.insert(at, e);
    assert forall|a: int, b: int| 0 <= a < b < next.len() implies !entry_lt(next[b], next[a]) by {
        let old_of = |k: int| if k < at { k } else { k - 1 };
        if b == at {
            assert(next[a] == entries[a]);
            if a < at - 1 {
                lemma_entry_lt_chain(e, entries[at - 1], entries[a]);
            }
        } else if a == at {
            assert(next[b] == entries[b - 1]);
            lemma_entry_lt_asymmetric(e, entries[b - 1]);
        } else {
            assert(next[a] == entries[old_of(a)]);
            assert(next[b] == entries[old_of(b)]);
        }
    }
}

/// The order of a listing is an order: no entry of it comes strictly before
/// one that stands ahead of it, and it holds the entries given, each as
/// often as it was given.
pub proof fn lemma_listing_order_is_sorted(entries: Seq<DirEntryView>)
    ensures
        listing_sorted(listing_order(entries)),
        listing_order(entries).to_multiset() == entries.to_multiset(),
        listing_order(entries).len() == entries.len(),
    decreases entries.len(),
{
    if entries.len() > 0 {
        let earlier = entries.drop_last();
        let last = entries.last();
        lemma_listing_order_is_sorted(earlier);
        let sorted = listing_order(earlier);
        lemma_placed_keeps_order(sorted, last);
        lemma_place_index(sorted, last);
        to_multiset_insert(sorted, place_index(sorted, last), last);
        assert(entries =~= earlier.push(last));
        to_multiset_build(earlier, last);
    }
}

/// In a listing every directory stands ahead of every file.
pub proof fn lemma_directories_stand_first(entries: Seq<DirEntryView>)
    ensures
        forall|i: int, j: int|
            0 <= i < j < entries.len() && (#[trigger] listing_order(entries)[j]).is_dir ==> (
            #[trigger] listing_order(entries)[i]).is_dir,
{
    lemma_listing_order_is_sorted(entries);
    let sorted = listing_order(entries);
    assert forall|i: int, j: int|
        0 <= i < j < entries.len() && (#[trigger] sorted[j]).is_dir implies (
    #[trigger] sorted[i]).is_dir by {
        assert(!entry_lt(sorted[j], sorted[i]));
    }
}

/// A directory and a file are listed directory first, whichever way round
/// they are given and whatever their names, and the page has the row of the
/// directory and then the row of the file.
pub proof fn lemma_folder_row_comes_first(
    folder: DirEntryView,
    file: DirEntryView,
    folder_stamp: Seq<char>,
    file_stamp: Seq<char>,
)
    requires
        folder.is_dir,
        !file.is_dir,
    ensures
        listing_order(seq![file, folder]) == seq![folder, file],
        listing_order(seq![folder, file]) == seq![folder, file],
        rows(seq![folder, file], seq![folder_stamp, file_stamp], 2) == row(folder, folder_stamp)
            + row(file, file_stamp),
{
    let empty = Seq::<DirEntryView>::empty();
    assert(listing_order(empty) == empty);
    assert(placed(empty, file) =~= seq![file]);
    assert(placed(empty, folder) =~= seq![folder]);
    assert(seq![file, folder].drop_last() =~= seq![file]);
    assert(seq![folder, file].drop_last() =~= seq![folder]);
    assert(seq![file].drop_last() =~= empty);
    assert(seq![folder].drop_last() =~= empty);
    assert(listing_order(seq![file]) == seq![file]);
    assert(listing_order(seq![folder]) == seq![folder]);
    assert(placed(seq![file], folder) =~= seq![folder, file]);
    assert(placed(seq![folder], file) =~= seq![folder, file]);
    let pair = seq![folder, file];
    let stamps = seq![folder_stamp, file_stamp];
    assert(rows(pair, stamps, 0) == Seq::<char>::empty());
    assert(rows(pair, stamps, 1) =~= row(folder, folder_stamp));
    assert(rows(pair, stamps, 2) =~= row(folder, folder_stamp) + row(file, file_stamp));
}

/// A size below 1024 bytes is shown in bytes, as the number itself with a
/// zero after the point: ten bytes read `10.0 B`.
pub proof fn lemma_small_size_is_in_bytes(size: nat)
    requires
        size < 1024,
    ensures
        file_size_text(size) == decimal(size) + ".0 B"@,
{
    reveal_strlit(".0 B");
    reveal_strlit("B");
    assert(unit_rank(size) == 0 && unit_bytes(0) == 1 && float_gap(size) == 1);
    assert(rounded(size, 1) == size);
    assert(measured(size) == size);
    let n = size * 10;
    assert(n / 1 == n && n % 1 == 0);
    assert(rounded(n, 1) == n);
    assert(tenths(size) == size * 10);
    assert((size * 10) / 10 == size && (size * 10) % 10 == 0);
    assert(file_size_text(size) =~= decimal(size) + ".0 B"@);
}

/// Puts the entries of a directory in the order of a listing: directories
/// first, then files, each kind by name. Entries that are equal in that
/// order keep their places relative to each other.
pub fn sort_dir_entries(vec: &mut Vec<DirEntry>)
    ensures
        entry_views(final(vec)@) == listing_order(entry_views(old(vec)@)),
        listing_sorted(entry_views(final(vec)@)),
        entry_views(final(vec)@).to_multiset() == entry_views(old(vec)@).to_multiset(),
{
    let n: usize = vec.len();
    let ghost given = entry_views(vec@);
    let mut i: usize = 0;
    assert(given.take(0) =~= Seq::<DirEntryView>::empty());
    while i < n
        invariant
            vec.len() == n,
            given.len() == n,
            i <= n,
            entry_views(vec@).take(i as int) == listing_order(given.take(i as int)),
            entry_views(vec@).skip(i as int) == given.skip(i as int),
            listing_sorted(entry_views(vec@).take(i as int)),
            entry_views(vec@).to_multiset() == given.to_multiset(),
        decreases n - i,
    {
        let ghost before = entry_views(vec@);
        let ghost head = before.take(i as int);
        let ghost moved = before[i as int];
        let mut j: usize = i;
        while j > 0 && entry_before(&vec[i], &vec[j - 1])
            invariant
                j <= i < n,
                vec.len() == n,
                before == entry_views(vec@),
                forall|k: int| j <= k < i ==> entry_lt(before[i as int], before[k]),
            decreases j,
        {
            j -= 1;
        }
        if j < i {
            let e = vec.remove(i);
            vec.insert(j, e);
        }
        proof {
            let after = entry_views(vec@);
            assert(after =~= before.remove(i as int).insert(j as int, moved));
            before.to_multiset_ensures();
            assert(before.contains(moved));
            to_multiset_remove(before, i as int);
            to_multiset_insert(before.remove(i as int), j as int, moved);
            assert(after.to_multiset() =~= before.to_multiset());
            let next = after.take(i + 1);
            assert(next =~= head.insert(j as int, moved));
            assert(after.skip(i + 1) =~= before.skip(i + 1));
            assert(before.skip(i as int + 1) =~= before.skip(i as int).skip(1));
            assert(given.skip(i as int + 1) =~= given.skip(i as int).skip(1));
            assert(moved == given[i as int]) by {
                assert(before.skip(i as int)[0] == given.skip(i as int)[0]);
            }
            assert forall|k: int| j <= k < head.len() implies entry_lt(moved, head[k]) by {
                assert(head[k] == before[k]);
            }
            if j > 0 {
                assert(head[j - 1] == before[j - 1]);
            }
            lemma_placed_at(head, moved, j as int);
            assert(given.take(i + 1).drop_last() =~= given.take(i as int));
            assert(given.take(i + 1).last() == given[i as int]);
            assert forall|a: int, b: int| 0 <= a < b < next.len() implies !entry_lt(
                next[b],
                next[a],
            ) by {
                let old_of = |k: int| if k < j { k } else { k - 1 };
                if b == j {
                    assert(next[a] == head[a]);
                    if a < j - 1 {
                        lemma_entry_lt_chain(moved, head[j - 1], head[a]);
                    }
                } else if a == j {
                    assert(next[b] == head[b - 1]);
                    lemma_entry_lt_asymmetric(moved, head[b - 1]);
                } else {
                    assert(next[a] == head[old_of(a)]);
                    assert(next[b] == head[old_of(b)]);
                }
            }
        }
        i += 1;
    }
    proof {
        assert(entry_views(vec@).take(n as int) =~= entry_views(vec@));
        assert(given.take(n as int) =~= given);
    }
}

/// The parts of an HTML page, kept apart until the page is built.
pub struct HtmlBuilder {
    title: String,
    css: String,
    script: String,
    body: String,
}

/// The parts of an HTML page as sequences of characters.
pub struct HtmlView {
    pub title: Seq<char>,
    pub css: Seq<char>,
    pub script: Seq<char>,
    pub body: Seq<char>,
}

impl View for HtmlBuilder {
    type V = HtmlView;

    closed spec fn view(&self) -> HtmlView {
        HtmlView { title: self.title@, css: self.css@, script: self.script@, body: self.body@ }
    }
}

/// The text of a page: the frame of the document with the script, the
/// title, the style sheet and the body set into it.
pub open spec fn page_text(page: HtmlView) -> Seq<char> {
    PAGE_1@ + page.script + PAGE_2@ + page.title + PAGE_3@ + page.css + PAGE_4@ + page.body
        + PAGE_5@
}

/// What a status page says under its code: the note where one is given,
/// else the reason phrase of the code.
pub open spec fn description(code: u16, note: Option<Seq<char>>) -> Seq<char> {
    match note {
        Some(n) => n,
        None => reason_phrase(code)->0,
    }
}

/// The page of a status code: the code as title and heading, and the
/// description in a paragraph.
pub open spec fn status_page(code: u16, note: Option<Seq<char>>) -> HtmlView {
    HtmlView {
        title: decimal(code as nat),
        css: STATUS_CSS@,
        script: Seq::empty(),
        body: STATUS_BODY_1@ + decimal(code as nat) + STATUS_BODY_2@ + description(code, note)
            + STATUS_BODY_3@,
    }
}

/// The row of one entry in a listing. A file shows its name, linked to
/// itself, its size and its time; a directory shows its name with a slash
/// after it, in the link and in the label, and a mark in place of the size.
pub open spec fn row(entry: DirEntryView, stamp: Seq<char>) -> Seq<char> {
    if entry.is_dir {
        DIR_ROW_1@ + entry.name + seq!['/'] + DIR_ROW_2@ + entry.name + seq!['/'] + DIR_ROW_3@
            + stamp + DIR_ROW_4@
    } else {
        FILE_ROW_1@ + entry.name + FILE_ROW_2@ + entry.name + FILE_ROW_3@ + file_size_text(
            entry.size as nat,
        ) + FILE_ROW_4@ + stamp + FILE_ROW_5@
    }
}

/// The rows of the first `count` entries, one after the other, each entry
/// with the time text of the same index.
pub open spec fn rows(entries: Seq<DirEntryView>, stamps: Seq<Seq<char>>, count: nat) -> Seq<char>
    decreases count,
{
    if count == 0 {
        Seq::empty()
    } else {
        rows(entries, stamps, (count - 1) as nat) + row(entries[count - 1], stamps[count - 1])
    }
}

/// The path as the heading of a listing shows it: without one slash at its
/// end.
pub open spec fn heading(path: Seq<char>) -> Seq<char> {
    if path.len() > 0 && path.last() == '/' {
        path.drop_last()
    } else {
        path
    }
}

/// The page that lists a directory: a heading with the path, and a table
/// with the column titles, a link to the parent directory and one row for
/// each entry, in the order given.
pub open spec fn listing_page(
    path: Seq<char>,
    entries: Seq<DirEntryView>,
    stamps: Seq<Seq<char>>,
) -> HtmlView {
    HtmlView {
        title: path + LISTING_TITLE@,
        css: LISTING_CSS@,
        script: Seq::empty(),
        body: LISTING_HEADING_OPEN@ + heading(path) + LISTING_TITLE@ + LISTING_HEADING_CLOSE@
            + LISTING_TABLE_OPEN@ + LISTING_HEAD@ + rows(entries, stamps, entries.len())
            + LISTING_TABLE_CLOSE@,
    }
}

/// The views of a sequence of strings.
pub open spec fn string_views(strings: Seq<String>) -> Seq<Seq<char>> {
    strings.map_values(|s: String| s@)
}

/// Whether the time of every entry falls in the years 0 through 9999.
pub open spec fn datable(entries: Seq<DirEntryView>) -> bool {
    forall|i: int| 0 <= i < entries.len() ==> in_calendar((#[trigger] entries[i]).modified)
}

impl HtmlBuilder {
    /// The page of a status code. With a note, the note is what the page
    /// says; without one, the reason phrase of the code, so the code must
    /// then be one that the catalog knows.
    pub fn from_status_code(code: u16, note: Option<&str>) -> (page: HtmlBuilder)
        requires
            note is Some || reason_phrase(code) is Some,
        ensures
            page@ == status_page(
                code,
                match note {
                    Some(n) => Some(n@),
                    None => None,
                },
            ),
    {
        let mut title = String::new();
        push_decimal(&mut title, code as u64);
        let said: &str = match note {
            Some(n) => n,
            None => match status_text(code) {
                Some(d) => d,
                None => "",
            },
        };
        let mut body = String::from_str(STATUS_BODY_1);
        push_decimal(&mut body, code as u64);
        body.append(STATUS_BODY_2);
        body.append(said);
        body.append(STATUS_BODY_3);
        HtmlBuilder { title, css: String::from_str(STATUS_CSS), script: String::new(), body }
    }

    /// The page that lists a directory, from its entries and the text of
    /// the time of each.
    pub fn from_listing(path: &str, entries: &Vec<DirEntry>, stamps: &Vec<String>) -> (page:
        HtmlBuilder)
        requires
            stamps.len() == entries.len(),
        ensures
            page@ == listing_page(path@, entry_views(entries@), string_views(stamps@)),
    {
        let chars = to_chars(path);
        let shown = if chars.len() > 0 && chars[chars.len() - 1] == '/' {
            string_from(&chars, 0, chars.len() - 1)
        } else {
            assert(chars@.subrange(0, chars.len() as int) =~= chars@);
            string_from(&chars, 0, chars.len())
        };
        let mut body = String::from_str(LISTING_HEADING_OPEN);
        body.append(shown.as_str());
        body.append(LISTING_TITLE);
        body.append(LISTING_HEADING_CLOSE);
        body.append(LISTING_TABLE_OPEN);
        body.append(LISTING_HEAD);
        let ghost head = body@;
        let ghost all = entry_views(entries@);
        let ghost times = string_views(stamps@);
        let mut i: usize = 0;
        while i < entries.len()
            invariant
                i <= entries.len(),
                stamps.len() == entries.len(),
                all == entry_views(entries@),
                times == string_views(stamps@),
                body@ == head + rows(all, times, i as nat),
            decreases entries.len() - i,
        {
            let entry = &entries[i];
            let stamp = &stamps[i];
            let ghost so_far = body@;
            if entry.is_dir {
                body.append(DIR_ROW_1);
                body.append(entry.name.as_str());
                push_char(&mut body, '/');
                body.append(DIR_ROW_2);
                body.append(entry.name.as_str());
                push_char(&mut body, '/');
                body.append(DIR_ROW_3);
                body.append(stamp.as_str());
                body.append(DIR_ROW_4);
            } else {
                let size = format_file_size(entry.size);
                body.append(FILE_ROW_1);
                body.append(entry.name.as_str());
                body.append(FILE_ROW_2);
                body.append(entry.name.as_str());
                body.append(FILE_ROW_3);
                body.append(size.as_str());
                body.append(FILE_ROW_4);
                body.append(stamp.as_str());
                body.append(FILE_ROW_5);
            }
            assert(body@ =~= so_far + row(all[i as int], times[i as int]));
            assert(body@ =~= head + rows(all, times, (i + 1) as nat));
            i += 1;
        }
        body.append(LISTING_TABLE_CLOSE);
        let mut title = String::from_str(path);
        title.append(LISTING_TITLE);
        HtmlBuilder { title, css: String::from_str(LISTING_CSS), script: String::new(), body }
    }

    /// Sorts the entries of a directory and builds the page that lists
    /// them. The time of each entry is shown on this machine's clock face,
    /// so the page is fixed up to those texts.
    pub fn from_dir(path: &str, dir_vec: &mut Vec<DirEntry>) -> (page: HtmlBuilder)
        requires
            datable(entry_views(old(dir_vec)@)),
        ensures
            entry_views(final(dir_vec)@) == listing_order(entry_views(old(dir_vec)@)),
            listing_sorted(entry_views(final(dir_vec)@)),
            entry_views(final(dir_vec)@).to_multiset() == entry_views(old(dir_vec)@).to_multiset(),
            exists|stamps: Seq<Seq<char>>|
                stamps.len() == final(dir_vec)@.len() && page@ == #[trigger] listing_page(
                    path@,
                    entry_views(final(dir_vec)@),
                    stamps,
                ),
    {
        sort_dir_entries(dir_vec);
        proof {
            lemma_datable_permutes(entry_views(old(dir_vec)@), entry_views(dir_vec@));
        }
        let mut stamps: Vec<String> = Vec::new();
        let mut i: usize = 0;
        while i < dir_vec.len()
            invariant
                i <= dir_vec.len(),
                stamps.len() == i,
                datable(entry_views(dir_vec@)),
            decreases dir_vec.len() - i,
        {
            assert(in_calendar(entry_views(dir_vec@)[i as int].modified));
            stamps.push(local_stamp(dir_vec[i].modified, STAMP_FORMAT));
            i += 1;
        }
        HtmlBuilder::from_listing(path, dir_vec, &stamps)
    }

    /// Sets the parts into the frame of the document.
    pub fn build(&self) -> (html: String)
        ensures
            html@ == page_text(self@),
    {
        let mut html = String::from_str(PAGE_1);
        html.append(self.script.as_str());
        html.append(PAGE_2);
        html.append(self.title.as_str());
        html.append(PAGE_3);
        html.append(self.css.as_str());
        html.append(PAGE_4);
        html.append(self.body.as_str());
        html.append(PAGE_5);
        html
    }
}

/// What came of running a script through its interpreter.
pub enum ScriptRun {
    /// The interpreter could not be started.
    NotStarted,
    /// The interpreter ran; `success` is whether it reported success, and
    /// `stdout` and `stderr` are what it wrote.
    Finished { success: bool, stdout: Vec<u8>, stderr: Vec<u8> },
}

/// The text that bytes stand for when every stretch of them that is not
/// UTF-8 is read as the replacement character.
pub uninterp spec fn lossy_text(bytes: Seq<u8>) -> Seq<char>;

/// `String::from_utf8_lossy` of std, made an owned string: the text of the
/// bytes with the replacement character in place of what is not UTF-8.
/// Bytes that are UTF-8 throughout give exactly the text they encode.
#[verifier::external_body]
pub(crate) fn lossy(bytes: &[u8]) -> (text: String)
    ensures
        text@ == lossy_text(bytes@),
        valid_utf8(bytes@) ==> text@ == decode_utf8(bytes@),
{
    String::from_utf8_lossy(bytes).into_owned()
}

/// What a request for a script is answered with, given what came of
/// running it: the page that it wrote, or the reason why there is none.
pub open spec fn script_result(run: ScriptRun) -> Result<Seq<char>, Exception> {
    match run {
        ScriptRun::NotStarted => Err(Exception::PHPExecuteFailed),
        ScriptRun::Finished { success, stdout, stderr } => if success {
            Ok(lossy_text(stdout@))
        } else {
            Err(Exception::PHPCodeError)
        },
    }
}

/// Turns what came of running a script into the page to send or the error
/// to report.
///
/// `id` names the connection in the caller's records and has no part in
/// the result.
pub fn handle_php(run: &ScriptRun, id: u128) -> (res: Result<String, Exception>)
    ensures
        match res {
            Ok(html) => script_result(*run) == Ok::<Seq<char>, Exception>(html@),
            Err(e) => script_result(*run) == Err::<Seq<char>, Exception>(e),
        },
        run matches ScriptRun::Finished { success: true, stdout, .. } ==> (valid_utf8(stdout@)
            ==> (res matches Ok(html) && html@ == decode_utf8(stdout@))),
{
    match run {
        ScriptRun::NotStarted => Err(Exception::PHPExecuteFailed),
        ScriptRun::Finished { success, stdout, stderr } => {
            if *success {
                Ok(lossy(stdout.as_slice()))
            } else {
                Err(Exception::PHPCodeError)
            }
        },
    }
}

/// Putting entries in another order does not change whether all their
/// times fall in the calendar.
pub proof fn lemma_datable_permutes(before: Seq<DirEntryView>, after: Seq<DirEntryView>)
    requires
        datable(before),
        before.to_multiset() == after.to_multiset(),
    ensures
        datable(after),
{
    before.to_multiset_ensures();
    after.to_multiset_ensures();
    assert forall|i: int| 0 <= i < after.len() implies in_calendar(
        (#[trigger] after[i]).modified,
    ) by {
        assert(after.contains(after[i]));
        assert(after.to_multiset().count(after[i]) > 0);
        assert(before.to_multiset().count(after[i]) > 0);
        assert(before.contains(after[i]));
        let k = choose|k: int| 0 <= k < before.len() && before[k] == after[i];
        assert(in_calendar(before[k].modified));
    }
}

} // verus!
