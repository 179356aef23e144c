//! Bytes on disk.
use vstd::prelude::*;

verus! {

/// Bytes on disk for the sequencer, the indexer and the wallet.
#[derive(Debug, Clone, Copy, Default, PartialEq, Eq, Structural)]
pub struct DiskSizes {
    pub sequencer_bytes: u64,
    pub indexer_bytes: u64,
    pub wallet_bytes: u64,
}

/// What a directory has under one name.
#[derive(Debug)]
pub enum DirEntry {
    /// A file and its length.
    File { bytes: u64 },
    /// A directory and what it contains, `None` if it cannot be listed.
    Directory { contents: Option<Vec<DirEntry>> },
    /// Sockets, pipes and devices, and what cannot be examined.
    Other,
}

/// The lengths of all files under one name, at any depth.
pub open spec fn files_under(entry: DirEntry) -> Seq<u64>
    decreases entry,
{
    match entry {
        DirEntry::File { bytes } => seq![bytes],
        DirEntry::Directory { contents: Some(list) } => files_in(list@),
        DirEntry::Directory { contents: None } => Seq::empty(),
        DirEntry::Other => Seq::empty(),
    }
}

/// The lengths of all files in a directory with these entries, at any depth.
pub open spec fn files_in(entries: Seq<DirEntry>) -> Seq<u64>
    decreases entries,
{
    if entries.len() == 0 {
        Seq::empty()
    } else {
        files_in(entries.drop_last()) + files_under(entries[entries.len() - 1])
    }
}

/// The sum of several lengths.
pub open spec fn total_of(lengths: Seq<u64>) -> nat
    decreases lengths.len(),
{
    if lengths.len() == 0 {
        0
    } else {
        total_of(lengths.drop_last()) + lengths.last() as nat
    }
}

/// `n`, or the largest number that 64 bits can hold.
pub open spec fn saturated(n: nat) -> u64 {
    if n > u64::MAX {
        u64::MAX
    } else {
        n as u64
    }
}

/// The size of a directory: the sum of the lengths of all files in it, at any
/// depth, capped at what 64 bits can hold. A directory that cannot be listed has
/// size zero.
pub open spec fn dir_bytes(contents: Option<Vec<DirEntry>>) -> u64 {
    match contents {
        Some(list) => saturated(total_of(files_in(list@))),
        None => 0,
    }
}

/// The sums of two lists of lengths add up.
pub proof fn totals_add_up(first: Seq<u64>, second: Seq<u64>)
    ensures
        total_of(first + second) == total_of(first) + total_of(second),
    decreases second.len(),
{
    if second.len() == 0 {
        assert(first + second =~= first);
    } else {
        totals_add_up(first, second.drop_last());
        assert((first + second).drop_last() =~= first + second.drop_last());
    }
}

/// Works out the size of a directory from what it contains.
pub fn dir_size_bytes(contents: &Option<Vec<DirEntry>>) -> (total: u64)
    ensures
        total == dir_bytes(*contents),
    decreases *contents,
{
    let list = match contents {
        Some(list) => list,
        None => return 0,
    };
    let mut total: u64 = 0;
    let mut i: usize = 0;
    assert(list@.take(0) =~= Seq::empty());
    while i < list.len()
        invariant
            *contents == Some(*list),
            i <= list@.len(),
            total == saturated(total_of(files_in(list@.take(i as int)))),
        decreases list@.len() - i,
    {
        proof {
            let upto = list@.take(i + 1);
            assert(upto.drop_last() =~= list@.take(i as int));
            assert(upto[upto.len() - 1] == list@[i as int]);
            totals_add_up(files_in(list@.take(i as int)), files_under(list@[i as int]));
            assert(decreases_to!(*list => list@));
            assert(decreases_to!(list@ => list@[i as int]));
        }
        let bytes: u64 = match &list[i] {
            DirEntry::File { bytes } => {
                assert(seq![*bytes].drop_last() =~= Seq::empty());
                reveal_with_fuel(total_of, 2);
                *bytes
            },
            DirEntry::Directory { contents: inner } => {
                assert(decreases_to!(*contents => contents->Some_0));
                assert(decreases_to!(list@[i as int] => *inner));
                dir_size_bytes(inner)
            },
            DirEntry::Other => 0,
        };
        total = if bytes > u64::MAX - total {
            u64::MAX
        } else {
            total + bytes
        };
        i = i + 1;
    }
    assert(list@.take(i as int) =~= list@);
    total
}

/// Works out the bytes on disk from what the three directories contain.
pub fn disk_sizes(
    sequencer: &Option<Vec<DirEntry>>,
    indexer: &Option<Vec<DirEntry>>,
    wallet: &Option<Vec<DirEntry>>,
) -> (sizes: DiskSizes)
    ensures
        sizes.sequencer_bytes == dir_bytes(*sequencer),
        sizes.indexer_bytes == dir_bytes(*indexer),
        sizes.wallet_bytes == dir_bytes(*wallet),
{
    DiskSizes {
        sequencer_bytes: dir_size_bytes(sequencer),
        indexer_bytes: dir_size_bytes(indexer),
        wallet_bytes: dir_size_bytes(wallet),
    }
}

/// The size of a directory does not depend on how its entries are grouped:
/// moving some of them into a subdirectory leaves it the same.
pub proof fn grouping_keeps_size(first: Seq<DirEntry>, second: Vec<DirEntry>)
    ensures
        files_in(first + second@) == files_in(
            first.push(DirEntry::Directory { contents: Some(second) }),
        ),
{
    files_in_both(first, second@);
    let directory = DirEntry::Directory { contents: Some(second) };
    let nested = first.push(directory);
    assert(nested.drop_last() =~= first);
    assert(nested[nested.len() - 1] == directory);
    assert(files_under(directory) == files_in(second@)) by {
        reveal_with_fuel(files_under, 2);
    }
}

/// The files of two lists of entries are those of the first and behind them
/// those of the second.
proof fn files_in_both(first: Seq<DirEntry>, second: Seq<DirEntry>)
    ensures
        files_in(first + second) == files_in(first) + files_in(second),
    decreases second.len(),
{
    let both = first + second;
    if second.len() == 0 {
        assert(both =~= first);
        assert(files_in(first) + files_in(second) =~= files_in(first));
    } else {
        files_in_both(first, second.drop_last());
        assert(both.drop_last() =~= first + second.drop_last());
        assert(both[both.len() - 1] == second[second.len() - 1]);
        assert(files_in(both) =~= files_in(first) + files_in(second));
    }
}

/// What an entry adds to its directory: a file its length, a directory all that
/// is in it, anything else nothing. A directory that cannot be listed adds
/// nothing either.
pub proof fn entries_add_their_bytes(entries: Seq<DirEntry>, bytes: u64, inner: Vec<DirEntry>)
    ensures
        total_of(files_in(entries.push(DirEntry::File { bytes }))) == total_of(files_in(entries))
            + bytes,
        total_of(files_in(entries.push(DirEntry::Directory { contents: Some(inner) })))
            == total_of(files_in(entries)) + total_of(files_in(inner@)),
        total_of(files_in(entries.push(DirEntry::Directory { contents: None }))) == total_of(
            files_in(entries),
        ),
        total_of(files_in(entries.push(DirEntry::Other))) == total_of(files_in(entries)),
        total_of(files_in(Seq::empty())) == 0,
{
    let file = DirEntry::File { bytes };
    let directory = DirEntry::Directory { contents: Some(inner) };
    let closed_directory = DirEntry::Directory { contents: None };
    let other = DirEntry::Other;
    pushed_entry_adds(entries, file);
    pushed_entry_adds(entries, directory);
    pushed_entry_adds(entries, closed_directory);
    pushed_entry_adds(entries, other);
    reveal_with_fuel(files_under, 2);
    assert(seq![bytes].drop_last() =~= Seq::empty());
    reveal_with_fuel(total_of, 2);
}

/// One more entry adds its files.
proof fn pushed_entry_adds(entries: Seq<DirEntry>, entry: DirEntry)
    ensures
        total_of(files_in(entries.push(entry))) == total_of(files_in(entries)) + total_of(
            files_under(entry),
        ),
{
    let more = entries.push(entry);
    assert(more.drop_last() =~= entries);
    assert(more[more.len() - 1] == entry);
    totals_add_up(files_in(entries), files_under(entry));
}

/// The size of a directory is that of its files, unless 64 bits cannot hold it:
/// then it is the largest number that they can.
pub proof fn sizes_are_capped(contents: Vec<DirEntry>)
    ensures
        total_of(files_in(contents@)) <= u64::MAX ==> dir_bytes(Some(contents)) == total_of(
            files_in(contents@),
        ),
        total_of(files_in(contents@)) > u64::MAX ==> dir_bytes(Some(contents)) == u64::MAX,
        dir_bytes(None) == 0,
{
}

} // verus!
