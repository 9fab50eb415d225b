//! Compact storage of room state: each entry packed into 16 bytes, and each
//! snapshot stored as the entries added to and removed from a parent.
use vstd::prelude::*;

verus! {

/// A state entry packed as the big-endian bytes of its short state key and
/// then of its short event id.
pub type CompressedStateEvent = [u8; 16];

/// The eight big-endian bytes of `x`.
pub open spec fn be_bytes(x: u64) -> Seq<u8> {
    seq![
        (x >> 56u64) as u8,
        (x >> 48u64) as u8,
        (x >> 40u64) as u8,
        (x >> 32u64) as u8,
        (x >> 24u64) as u8,
        (x >> 16u64) as u8,
        (x >> 8u64) as u8,
        x as u8,
    ]
}

/// The number whose big-endian bytes are `b[at..at + 8]`.
pub open spec fn from_be(b: Seq<u8>, at: int) -> u64 {
    (b[at] as u64) << 56u64 | (b[at + 1] as u64) << 48u64 | (b[at + 2] as u64) << 40u64 | (b[at
        + 3] as u64) << 32u64 | (b[at + 4] as u64) << 24u64 | (b[at + 5] as u64) << 16u64 | (b[at
        + 6] as u64) << 8u64 | (b[at + 7] as u64)
}

fn be_u64(b: &[u8; 16], at: usize) -> (r: u64)
    requires
        at == 0 || at == 8,
    ensures
        r == from_be(b@, at as int),
{
    (b[at] as u64) << 56u64 | (b[at + 1] as u64) << 48u64 | (b[at + 2] as u64) << 40u64 | (b[at
        + 3] as u64) << 32u64 | (b[at + 4] as u64) << 24u64 | (b[at + 5] as u64) << 16u64 | (b[at
        + 6] as u64) << 8u64 | (b[at + 7] as u64)
}

/// Packs a state entry.
pub fn compress_state_event(shortstatekey: u64, shorteventid: u64) -> (r: CompressedStateEvent)
    ensures
        r@ == be_bytes(shortstatekey) + be_bytes(shorteventid),
{
    let k = shortstatekey;
    let e = shorteventid;
    let r: [u8; 16] = [
        (k >> 56u64) as u8,
        (k >> 48u64) as u8,
        (k >> 40u64) as u8,
        (k >> 32u64) as u8,
        (k >> 24u64) as u8,
        (k >> 16u64) as u8,
        (k >> 8u64) as u8,
        k as u8,
        (e >> 56u64) as u8,
        (e >> 48u64) as u8,
        (e >> 40u64) as u8,
        (e >> 32u64) as u8,
        (e >> 24u64) as u8,
        (e >> 16u64) as u8,
        (e >> 8u64) as u8,
        e as u8,
    ];
    assert(r@ =~= be_bytes(shortstatekey) + be_bytes(shorteventid));
    r
}

/// Unpacks a state entry into its short state key and short event id.
pub fn parse_compressed_state_event(compressed: CompressedStateEvent) -> (r: (u64, u64))
    ensures
        r == (from_be(compressed@, 0), from_be(compressed@, 8)),
{
    (be_u64(&compressed, 0), be_u64(&compressed, 8))
}

proof fn lemma_from_be_bytes(x: u64)
    ensures
        from_be(be_bytes(x), 0) == x,
{
    let b = be_bytes(x);
    assert(((x >> 56u64) as u8 as u64) << 56u64 | ((x >> 48u64) as u8 as u64) << 48u64 | ((x
        >> 40u64) as u8 as u64) << 40u64 | ((x >> 32u64) as u8 as u64) << 32u64 | ((x >> 24u64) as u8
        as u64) << 24u64 | ((x >> 16u64) as u8 as u64) << 16u64 | ((x >> 8u64) as u8 as u64) << 8u64
        | (x as u8 as u64) == x) by (bit_vector);
}

proof fn lemma_be_bytes_from(b: Seq<u8>, at: int)
    requires
        0 <= at,
        at + 8 <= b.len(),
    ensures
        be_bytes(from_be(b, at)) == b.subrange(at, at + 8),
{
    let b0 = b[at];
    let b1 = b[at + 1];
    let b2 = b[at + 2];
    let b3 = b[at + 3];
    let b4 = b[at + 4];
    let b5 = b[at + 5];
    let b6 = b[at + 6];
    let b7 = b[at + 7];
    let x = from_be(b, at);
    assert(x == (b0 as u64) << 56u64 | (b1 as u64) << 48u64 | (b2 as u64) << 40u64 | (b3 as u64)
        << 32u64 | (b4 as u64) << 24u64 | (b5 as u64) << 16u64 | (b6 as u64) << 8u64 | (b7 as u64));
    assert((x >> 56u64) as u8 == b0 && (x >> 48u64) as u8 == b1 && (x >> 40u64) as u8 == b2 && (x
        >> 32u64) as u8 == b3 && (x >> 24u64) as u8 == b4 && (x >> 16u64) as u8 == b5 && (x >> 8u64)
        as u8 == b6 && x as u8 == b7) by (bit_vector)
        requires
            x == (b0 as u64) << 56u64 | (b1 as u64) << 48u64 | (b2 as u64) << 40u64 | (b3 as u64)
                << 32u64 | (b4 as u64) << 24u64 | (b5 as u64) << 16u64 | (b6 as u64) << 8u64 | (
            b7 as u64),
    ;
    assert(be_bytes(x) =~= b.subrange(at, at + 8));
}

/// Unpacking a packed entry gives the entry back.
pub proof fn parse_after_compress(shortstatekey: u64, shorteventid: u64)
    ensures
        ({
            let c = be_bytes(shortstatekey) + be_bytes(shorteventid);
            from_be(c, 0) == shortstatekey && from_be(c, 8) == shorteventid
        }),
{
    let c = be_bytes(shortstatekey) + be_bytes(shorteventid);
    lemma_from_be_bytes(shortstatekey);
    lemma_from_be_bytes(shorteventid);
    assert(c.subrange(0, 8) =~= be_bytes(shortstatekey));
    assert(c.subrange(8, 16) =~= be_bytes(shorteventid));
    assert(from_be(c, 0) == from_be(be_bytes(shortstatekey), 0));
    assert(from_be(c, 8) == from_be(be_bytes(shorteventid), 0));
}

/// Packing an unpacked entry gives the same sixteen bytes.
pub proof fn compress_after_parse(compressed: Seq<u8>)
    requires
        compressed.len() == 16,
    ensures
        be_bytes(from_be(compressed, 0)) + be_bytes(from_be(compressed, 8)) == compressed,
{
    lemma_be_bytes_from(compressed, 0);
    lemma_be_bytes_from(compressed, 8);
    assert(compressed.subrange(0, 8) + compressed.subrange(8, 16) =~= compressed);
}

/// A state snapshot: `(short state key, short event id)` entries.
pub type Entry = (u64, u64);

/// The entries that a snapshot stores as a delta from its parent.
#[derive(Debug)]
pub struct StateDiff {
    pub added: Vec<Entry>,
    pub removed: Vec<Entry>,
}

/// A delta is well formed against `parent` when it adds only entries that
/// the parent lacks and removes only entries that the parent has.
pub open spec fn diff_fits(parent: Set<Entry>, added: Set<Entry>, removed: Set<Entry>) -> bool {
    added.disjoint(parent) && removed.subset_of(parent)
}

/// The snapshot that a delta gives from `parent`.
pub open spec fn decompress_spec(parent: Set<Entry>, added: Set<Entry>, removed: Set<Entry>) -> Set<
    Entry,
> {
    parent.difference(removed).union(added)
}

/// The delta that takes `parent` to `full`: what `full` adds and what it drops.
pub open spec fn compress_spec(parent: Set<Entry>, full: Set<Entry>) -> (Set<Entry>, Set<Entry>) {
    (full.difference(parent), parent.difference(full))
}

fn contains_entry(v: &Vec<Entry>, x: Entry) -> (r: bool)
    ensures
        r == v@.contains(x),
{
    let mut i: usize = 0;
    while i < v.len()
        invariant
            i <= v@.len(),
            forall|j: int| 0 <= j < i ==> v@[j] != x,
        decreases v@.len() - i,
    {
        if v[i].0 == x.0 && v[i].1 == x.1 {
            assert(v@[i as int] == x);
            return true;
        }
        i = i + 1;
    }
    false
}

/// The entries of `a` that `b` lacks, in the order of `a`.
fn minus(a: &Vec<Entry>, b: &Vec<Entry>) -> (r: Vec<Entry>)
    ensures
        r@.to_set() == a@.to_set().difference(b@.to_set()),
{
    let mut out: Vec<Entry> = Vec::new();
    let mut i: usize = 0;
    while i < a.len()
        invariant
            i <= a@.len(),
            out@.to_set() == a@.subrange(0, i as int).to_set().difference(b@.to_set()),
        decreases a@.len() - i,
    {
        let x = a[i];
        let ghost before = out@;
        assert(a@.subrange(0, i + 1) == a@.subrange(0, i as int).push(x));
        proof {
            a@.subrange(0, i as int).lemma_push_to_set_commute(x);
        }
        if !contains_entry(b, x) {
            out.push(x);
            proof {
                before.lemma_push_to_set_commute(x);
            }
            assert(out@.to_set() =~= a@.subrange(0, i + 1).to_set().difference(b@.to_set()));
        } else {
            assert(out@.to_set() =~= a@.subrange(0, i + 1).to_set().difference(b@.to_set()));
        }
        i = i + 1;
    }
    assert(a@.subrange(0, a@.len() as int) == a@);
    out
}

/// Stores `full` as a delta from `parent`.
pub fn compress_state(parent: &Vec<Entry>, full: &Vec<Entry>) -> (r: StateDiff)
    ensures
        (r.added@.to_set(), r.removed@.to_set()) == compress_spec(parent@.to_set(), full@.to_set()),
{
    StateDiff { added: minus(full, parent), removed: minus(parent, full) }
}

/// The snapshot that the delta `diff` gives from `parent`.
pub fn decompress_state(parent: &Vec<Entry>, diff: &StateDiff) -> (r: Vec<Entry>)
    ensures
        r@.to_set() == decompress_spec(
            parent@.to_set(),
            diff.added@.to_set(),
            diff.removed@.to_set(),
        ),
{
    let mut out = minus(parent, &diff.removed);
    let ghost kept = out@.to_set();
    let mut i: usize = 0;
    while i < diff.added.len()
        invariant
            i <= diff.added@.len(),
            out@.to_set() == kept.union(diff.added@.subrange(0, i as int).to_set()),
        decreases diff.added@.len() - i,
    {
        let x = diff.added[i];
        let ghost before = out@;
        out.push(x);
        proof {
            before.lemma_push_to_set_commute(x);
        }
        assert(diff.added@.subrange(0, i + 1) == diff.added@.subrange(0, i as int).push(x));
        proof {
            diff.added@.subrange(0, i as int).lemma_push_to_set_commute(x);
        }
        assert(out@.to_set() =~= kept.union(diff.added@.subrange(0, i + 1).to_set()));
        i = i + 1;
    }
    assert(diff.added@.subrange(0, diff.added@.len() as int) == diff.added@);
    out
}

/// Expanding the delta of a snapshot gives the snapshot back.
pub proof fn decompress_after_compress(parent: Set<Entry>, full: Set<Entry>)
    ensures
        decompress_spec(parent, compress_spec(parent, full).0, compress_spec(parent, full).1)
            == full,
{
    assert(decompress_spec(parent, compress_spec(parent, full).0, compress_spec(parent, full).1)
        =~= full);
}

/// Storing an expanded snapshot as a delta from the same parent gives the
/// same delta, for every delta that fits the parent.
pub proof fn compress_after_decompress(parent: Set<Entry>, added: Set<Entry>, removed: Set<Entry>)
    requires
        diff_fits(parent, added, removed),
    ensures
        compress_spec(parent, decompress_spec(parent, added, removed)) == (added, removed),
{
    let full = decompress_spec(parent, added, removed);
    assert(full.difference(parent) =~= added);
    assert(parent.difference(full) =~= removed);
}

} // verus!
