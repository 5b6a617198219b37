//! RDP8 bulk compression of one segment: greedy matching over hash chains,
//! then the fixed codes.

use vstd::prelude::*;

use crate::bit_writer::BitWriter;
use crate::bits;
use crate::zgfx_codes;
use crate::zgfx_codes::{Token, MIN_MATCH};

verus! {

/// How many bytes back a decoder can look.
pub const HISTORY_SIZE: usize = 2_500_000;

/// The longest match that is written.
pub const MAX_MATCH: usize = 65535;

/// The number of hash buckets.
pub const HASH_SIZE: usize = 65536;

/// How many earlier positions are compared at each position.
pub const MAX_CHAIN: usize = 32;

/// The first byte of a segment whose data is stored as it is.
pub const STORED: u8 = 0x04;

/// The first byte of a segment whose data is compressed.
pub const COMPRESSED: u8 = 0x24;

/// The hash bucket of the three bytes at `pos`.
pub open spec fn hash_at(data: Seq<u8>, pos: int) -> int {
    (data[pos] + 256 * data[pos + 1] + 65536 * data[pos + 2]) * 0x9E3779B1 % 0x1_0000_0000 / 65536
}

/// Whether `pos` is recorded for later positions to match: three bytes start
/// there, and it lies among the first `HISTORY_SIZE` positions.
pub open spec fn recorded(data: Seq<u8>, pos: int) -> bool {
    0 <= pos && pos + MIN_MATCH <= data.len() && pos < HISTORY_SIZE
}

/// The last recorded position before `before` in the bucket `hash`, or -1.
pub open spec fn latest(data: Seq<u8>, hash: int, before: int) -> int
    decreases before,
{
    if before <= 0 {
        -1
    } else if recorded(data, before - 1) && hash_at(data, before - 1) == hash {
        before - 1
    } else {
        latest(data, hash, before - 1)
    }
}

/// Whether the `n` bytes at `a` equal the `n` bytes at `b`.
pub open spec fn agree(data: Seq<u8>, a: int, b: int, n: int) -> bool {
    forall|j: int| 0 <= j < n ==> data[a + j] == #[trigger] data[b + j]
}

/// How many bytes from `a` and from `b` agree before the first difference, up
/// to `limit`.
pub open spec fn common_length(data: Seq<u8>, a: int, b: int, limit: nat) -> nat
    decreases limit,
{
    if limit == 0 || data[a] != data[b] {
        0
    } else {
        1 + common_length(data, a + 1, b + 1, (limit - 1) as nat)
    }
}

/// The longest match that `pos` leaves room for.
pub open spec fn length_limit(data: Seq<u8>, pos: int) -> nat {
    if data.len() - pos < MAX_MATCH {
        (data.len() - pos) as nat
    } else {
        MAX_MATCH as nat
    }
}

/// The best of `best` and the next `left` candidates of `pos`, the first of
/// which is `candidate`: each is a length and a distance, a longer match is
/// better, and of two of one length the nearer. A candidate further back than
/// the history ends the search.
pub open spec fn search(
    data: Seq<u8>,
    pos: int,
    candidate: int,
    left: nat,
    best: (nat, int),
) -> (nat, int)
    decreases left,
{
    if candidate < 0 || left == 0 || pos - candidate > HISTORY_SIZE {
        best
    } else {
        let length = common_length(data, candidate, pos, length_limit(data, pos));
        search(
            data,
            pos,
            latest(data, hash_at(data, candidate), candidate),
            (left - 1) as nat,
            if length > best.0 {
                (length, pos - candidate)
            } else {
                best
            },
        )
    }
}

/// The length and distance of the best match at `pos`; a length below
/// `MIN_MATCH` means that there is none.
pub open spec fn best_match(data: Seq<u8>, pos: int) -> (nat, int) {
    search(
        data,
        pos,
        latest(data, hash_at(data, pos), pos),
        MAX_CHAIN as nat,
        ((MIN_MATCH - 1) as nat, 0),
    )
}

/// Whether a match is written at `pos`.
pub open spec fn has_match(data: Seq<u8>, pos: int) -> bool {
    pos + MIN_MATCH <= data.len() && best_match(data, pos).0 >= MIN_MATCH
}

/// The token that is written at `pos`.
pub open spec fn token_at(data: Seq<u8>, pos: int) -> Token {
    if has_match(data, pos) {
        Token::Match {
            distance: best_match(data, pos).1 as nat,
            length: best_match(data, pos).0,
        }
    } else {
        Token::Literal(data[pos])
    }
}

/// How many bytes the token at `pos` covers.
pub open spec fn step_at(data: Seq<u8>, pos: int) -> nat {
    if has_match(data, pos) {
        best_match(data, pos).0
    } else {
        1
    }
}

/// The tokens that cover `data` from `pos` on.
pub open spec fn tokens_from(data: Seq<u8>, pos: int) -> Seq<Token>
    decreases
            (if pos < data.len() {
                data.len() - pos
            } else {
                0
            }),
{
    if pos >= data.len() {
        Seq::empty()
    } else {
        seq![token_at(data, pos)] + tokens_from(data, pos + step_at(data, pos))
    }
}

/// The compressed form of `data`.
pub open spec fn compressed(data: Seq<u8>) -> Seq<u8> {
    bits::pack(zgfx_codes::tokens_bits(tokens_from(data, 0)))
}

/// Whether `data` is stored as it is: it is too short for a match, or its
/// compressed form is no shorter.
pub open spec fn is_stored(data: Seq<u8>) -> bool {
    data.len() < MIN_MATCH || compressed(data).len() >= data.len()
}

/// The segment that carries `data`.
pub open spec fn segment(data: Seq<u8>) -> Seq<u8> {
    if is_stored(data) {
        seq![STORED] + data
    } else {
        seq![COMPRESSED] + compressed(data)
    }
}

/// Only the longest common run has a difference, or the limit, at its end.
pub proof fn lemma_common_length(data: Seq<u8>, a: int, b: int, limit: nat, n: nat)
    requires
        n <= limit,
        agree(data, a, b, n as int),
        n == limit || data[a + n] != data[b + n],
    ensures
        common_length(data, a, b, limit) == n,
    decreases n,
{
    if n > 0 {
        assert(data[a + 0] == data[b + 0]);
        assert forall|j: int| 0 <= j < n - 1 implies data[a + 1 + j] == #[trigger] data[b + 1
            + j] by {
            assert(data[a + (j + 1)] == data[b + (j + 1)]);
        }
        lemma_common_length(data, a + 1, b + 1, (limit - 1) as nat, (n - 1) as nat);
    }
}

/// The bytes within the common length agree.
pub proof fn lemma_common_length_agrees(data: Seq<u8>, a: int, b: int, limit: nat)
    ensures
        common_length(data, a, b, limit) <= limit,
        agree(data, a, b, common_length(data, a, b, limit) as int),
    decreases limit,
{
    if limit > 0 && data[a] == data[b] {
        lemma_common_length_agrees(data, a + 1, b + 1, (limit - 1) as nat);
        let n = common_length(data, a, b, limit);
        assert forall|j: int| 0 <= j < n implies data[a + j] == #[trigger] data[b + j] by {
            if j > 0 {
                assert(data[a + 1 + (j - 1)] == data[b + 1 + (j - 1)]);
            }
        }
    }
}

pub proof fn lemma_latest(data: Seq<u8>, hash: int, before: int)
    ensures
        -1 <= latest(data, hash, before),
        before >= 0 ==> latest(data, hash, before) < before,
        latest(data, hash, before) < HISTORY_SIZE,
        latest(data, hash, before) >= 0 ==> recorded(data, latest(data, hash, before)) && hash_at(
            data,
            latest(data, hash, before),
        ) == hash,
    decreases before,
{
    if before > 0 {
        lemma_latest(data, hash, before - 1);
    }
}

/// Once the best match fills the limit, no candidate improves it.
pub proof fn lemma_search_full(
    data: Seq<u8>,
    pos: int,
    candidate: int,
    left: nat,
    best: (nat, int),
)
    requires
        best.0 >= length_limit(data, pos),
    ensures
        search(data, pos, candidate, left, best) == best,
    decreases left,
{
    if !(candidate < 0 || left == 0 || pos - candidate > HISTORY_SIZE) {
        lemma_common_length_agrees(data, candidate, pos, length_limit(data, pos));
        lemma_search_full(
            data,
            pos,
            latest(data, hash_at(data, candidate), candidate),
            (left - 1) as nat,
            best,
        );
    }
}

/// What a search returns is its starting point or a match: bytes that agree
/// with those so far back, which a decoder still holds.
pub proof fn lemma_search(
    data: Seq<u8>,
    pos: int,
    candidate: int,
    left: nat,
    best: (nat, int),
)
    requires
        0 <= pos < data.len(),
        candidate < pos,
    ensures
        ({
            let found = search(data, pos, candidate, left, best);
            ||| found == best
            ||| {
                &&& best.0 < found.0 <= length_limit(data, pos)
                &&& 1 <= found.1 <= HISTORY_SIZE
                &&& found.1 <= pos
                &&& agree(data, pos - found.1, pos, found.0 as int)
            }
        }),
    decreases left,
{
    if !(candidate < 0 || left == 0 || pos - candidate > HISTORY_SIZE) {
        lemma_common_length_agrees(data, candidate, pos, length_limit(data, pos));
        lemma_latest(data, hash_at(data, candidate), candidate);
        let length = common_length(data, candidate, pos, length_limit(data, pos));
        lemma_search(
            data,
            pos,
            latest(data, hash_at(data, candidate), candidate),
            (left - 1) as nat,
            if length > best.0 {
                (length, pos - candidate)
            } else {
                best
            },
        );
    }
}

/// A match that is written repeats bytes of `data`, no further back than the
/// history.
pub proof fn lemma_best_match(data: Seq<u8>, pos: int)
    requires
        0 <= pos,
        has_match(data, pos),
    ensures
        ({
            let found = best_match(data, pos);
            &&& MIN_MATCH <= found.0 <= MAX_MATCH
            &&& pos + found.0 <= data.len()
            &&& 1 <= found.1 <= HISTORY_SIZE
            &&& found.1 <= pos
            &&& agree(data, pos - found.1, pos, found.0 as int)
        }),
{
    let hash = hash_at(data, pos);
    lemma_latest(data, hash, pos);
    lemma_search(
        data,
        pos,
        latest(data, hash, pos),
        MAX_CHAIN as nat,
        ((MIN_MATCH - 1) as nat, 0),
    );
}

/// The hash bucket of the three bytes at `pos`.
pub fn hash3(data: &[u8], pos: usize) -> (hash: usize)
    requires
        pos + 2 < data@.len(),
    ensures
        hash == hash_at(data@, pos as int),
        hash < HASH_SIZE,
{
    let a = data[pos] as u32;
    let b = data[pos + 1] as u32;
    let c = data[pos + 2] as u32;
    assert(a < 256 && b < 256 && c < 256 ==> a | (b << 8) | (c << 16) == a + 256 * b + 65536 * c)
        by (bit_vector);
    let h: u32 = a | (b << 8) | (c << 16);
    let m: u32 = h.wrapping_mul(0x9E3779B1);
    assert(m >> 16 == m / 65536) by (bit_vector);
    (m >> 16) as usize
}

/// The segment that stores `data` as it is.
pub fn uncompressed_segment(data: &[u8]) -> (out: Vec<u8>)
    requires
        data@.len() < isize::MAX,
    ensures
        out@ == seq![STORED] + data@,
{
    let mut out: Vec<u8> = Vec::with_capacity(1 + data.len());
    out.push(STORED);
    out.extend_from_slice(data);
    assert(out@ =~= seq![STORED] + data@);
    out
}

/// How many bytes at `a` and `b` agree, up to `limit`.
fn match_length(data: &[u8], a: usize, b: usize, limit: usize) -> (len: usize)
    requires
        a <= b,
        b + limit <= data@.len(),
    ensures
        len == common_length(data@, a as int, b as int, limit as nat),
        len <= limit,
{
    let end: usize = data.len();
    let mut len: usize = 0;
    while len < limit && data[a + len] == data[b + len]
        invariant
            a <= b,
            b + limit <= end == data@.len(),
            len <= limit,
            agree(data@, a as int, b as int, len as int),
        decreases limit - len,
    {
        len += 1;
    }
    proof {
        lemma_common_length(data@, a as int, b as int, limit as nat, len as nat);
    }
    len
}

/// Whether `head` and `prev` hold what is recorded of the positions before
/// `pos`: the last position in each bucket, and before each position the one
/// before it in its bucket, each plus one.
spec fn chains_hold(data: Seq<u8>, pos: int, head: Seq<u32>, prev: Seq<u32>) -> bool {
    &&& head.len() == HASH_SIZE
    &&& prev.len() == (if data.len() < HISTORY_SIZE {
        data.len()
    } else {
        HISTORY_SIZE as nat
    })
    &&& forall|h: int| 0 <= h < HASH_SIZE ==> #[trigger] head[h] == latest(data, h, pos) + 1
    &&& forall|p: int|
        0 <= p < pos && recorded(data, p) ==> #[trigger] prev[p] == latest(
            data,
            hash_at(data, p),
            p,
        ) + 1
}

/// The best match at `pos`.
fn find_match(data: &[u8], pos: usize, head: &Vec<u32>, prev: &Vec<u32>) -> (best: (usize, u32))
    requires
        pos + MIN_MATCH <= data@.len(),
        chains_hold(data@, pos as int, head@, prev@),
    ensures
        (best.0 as nat, best.1 as int) == best_match(data@, pos as int),
{
    let ghost d = data@;
    let hash: usize = hash3(data, pos);
    let room: usize = data.len() - pos;
    let max_len: usize = if room < MAX_MATCH {
        room
    } else {
        MAX_MATCH
    };
    let mut best_len: usize = MIN_MATCH - 1;
    let mut best_dist: u32 = 0;
    let mut chain_idx: u32 = head[hash];
    let mut chain_count: usize = 0;
    proof {
        lemma_latest(d, hash as int, pos as int);
    }
    while chain_idx > 0 && chain_count < MAX_CHAIN
        invariant_except_break
            chain_idx - 1 < pos,
            chain_idx - 1 < HISTORY_SIZE,
            chain_idx > 0 ==> recorded(d, chain_idx - 1),
            chain_count <= MAX_CHAIN,
            search(
                d,
                pos as int,
                chain_idx - 1,
                (MAX_CHAIN - chain_count) as nat,
                (best_len as nat, best_dist as int),
            ) == best_match(d, pos as int),
        invariant
            d == data@,
            pos + MIN_MATCH <= d.len(),
            chains_hold(d, pos as int, head@, prev@),
            max_len == length_limit(d, pos as int),
        ensures
            (best_len as nat, best_dist as int) == best_match(d, pos as int),
        decreases MAX_CHAIN - chain_count,
    {
        let candidate: usize = (chain_idx - 1) as usize;
        let gap: usize = pos - candidate;
        if gap > HISTORY_SIZE {
            break;
        }
        let dist: u32 = gap as u32;
        let len: usize = match_length(data, candidate, pos, max_len);
        if len > best_len {
            best_len = len;
            best_dist = dist;
            if best_len == max_len {
                proof {
                    lemma_search_full(
                        d,
                        pos as int,
                        latest(d, hash_at(d, candidate as int), candidate as int),
                        (MAX_CHAIN - chain_count - 1) as nat,
                        (best_len as nat, best_dist as int),
                    );
                }
                break;
            }
        }
        chain_count += 1;
        chain_idx = prev[candidate];
        proof {
            lemma_latest(d, hash_at(d, candidate as int), candidate as int);
        }
    }
    (best_len, best_dist)
}

/// Records `pos` in its bucket.
fn record(data: &[u8], pos: usize, head: &mut Vec<u32>, prev: &mut Vec<u32>)
    requires
        pos < data@.len(),
        chains_hold(data@, pos as int, old(head)@, old(prev)@),
    ensures
        chains_hold(data@, pos + 1, final(head)@, final(prev)@),
{
    let ghost d = data@;
    if pos < prev.len() && MIN_MATCH <= data.len() - pos {
        let hash: usize = hash3(data, pos);
        proof {
            lemma_latest(d, hash as int, pos as int);
        }
        let ghost prev0 = prev@;
        let ghost head0 = head@;
        prev.set(pos, head[hash]);
        head.set(hash, (pos + 1) as u32);
        assert forall|h: int| 0 <= h < HASH_SIZE implies #[trigger] head@[h] == latest(
            d,
            h,
            pos + 1,
        ) + 1 by {
            if h != hash {
                assert(head@[h] == head0[h]);
            }
        }
        assert forall|p: int| 0 <= p < pos + 1 && recorded(d, p) implies #[trigger] prev@[p]
            == latest(d, hash_at(d, p), p) + 1 by {
            if p < pos {
                assert(prev@[p] == prev0[p]);
            }
        }
    } else {
        assert(!recorded(d, pos as int));
        assert forall|h: int| 0 <= h < HASH_SIZE implies #[trigger] head@[h] == latest(
            d,
            h,
            pos + 1,
        ) + 1 by {}
    }
}

/// The segment that carries `data`, compressed where that makes it shorter.
pub fn compress(data: &[u8]) -> (out: Vec<u8>)
    requires
        data@.len() < isize::MAX,
    ensures
        out@ == segment(data@),
{
    let ghost d = data@;
    if data.len() < MIN_MATCH {
        return uncompressed_segment(data);
    }
    let lookup = zgfx_codes::literal_lookup_table();
    let mut w = BitWriter::new(data.len());
    let mut head: Vec<u32> = vec![0u32; HASH_SIZE];
    let prev_size: usize = if data.len() < HISTORY_SIZE {
        data.len()
    } else {
        HISTORY_SIZE
    };
    let mut prev: Vec<u32> = vec![0u32; prev_size];
    let mut pos: usize = 0;
    let ghost all = zgfx_codes::tokens_bits(tokens_from(d, 0));
    assert(w@ + all =~= all);
    while pos < data.len()
        invariant
            d == data@,
            d.len() < isize::MAX,
            pos <= d.len(),
            w.wf(),
            forall|b: u8| #[trigger] lookup@[b as int] == zgfx_codes::lookup_entry(b),
            chains_hold(d, pos as int, head@, prev@),
            w@ + zgfx_codes::tokens_bits(tokens_from(d, pos as int)) == all,
        decreases d.len() - pos,
    {
        let ghost written = w@;
        let ghost start = pos as int;
        let ghost tail = tokens_from(d, start + step_at(d, start));
        proof {
            let here = tokens_from(d, start);
            assert(here[0] == token_at(d, start));
            assert(here.drop_first() =~= tail);
            if has_match(d, start) {
                lemma_best_match(d, start);
            }
        }
        let byte: u8 = data[pos];
        proof {
            zgfx_codes::lemma_lookup_entry(byte);
        }
        if MIN_MATCH > data.len() - pos {
            zgfx_codes::write_literal(&mut w, byte, &lookup);
            record(data, pos, &mut head, &mut prev);
            pos += 1;
        } else {
            let (best_len, best_dist) = find_match(data, pos, &head, &prev);
            if best_len >= MIN_MATCH {
                zgfx_codes::write_match(&mut w, best_dist, best_len);
                let end: usize = pos + best_len;
                while pos < end
                    invariant
                        d == data@,
                        pos <= end <= d.len(),
                        chains_hold(d, pos as int, head@, prev@),
                    decreases end - pos,
                {
                    record(data, pos, &mut head, &mut prev);
                    pos += 1;
                }
            } else {
                zgfx_codes::write_literal(&mut w, byte, &lookup);
                record(data, pos, &mut head, &mut prev);
                pos += 1;
            }
        }
        assert(w@ == written + zgfx_codes::token_bits(token_at(d, start)));
        assert(w@ + zgfx_codes::tokens_bits(tail) =~= written + (zgfx_codes::token_bits(
            token_at(d, start),
        ) + zgfx_codes::tokens_bits(tail)));
    }
    assert(tokens_from(d, pos as int) =~= Seq::empty());
    assert(w@ =~= all);
    let packed: Vec<u8> = w.finish();
    if packed.len() >= data.len() {
        return uncompressed_segment(data);
    }
    let mut out: Vec<u8> = Vec::with_capacity(1 + packed.len());
    out.push(COMPRESSED);
    out.extend_from_slice(&packed);
    assert(out@ =~= seq![COMPRESSED] + packed@);
    out
}

/// How many of the positions between `c` and `pos` are recorded in the bucket
/// `hash`.
pub open spec fn newer(data: Seq<u8>, hash: int, c: int, pos: int) -> nat
    decreases pos - c,
{
    if pos <= c + 1 {
        0
    } else {
        newer(data, hash, c, pos - 1) + (if pos - 1 < 2_500_000 && hash_at(data, pos - 1) == hash {
            1nat
        } else {
            0
        })
    }
}

/// The last recorded position in a bucket is no earlier than any in it, and those
/// newer than another are newer than it, or it is one of them.
proof fn lemma_latest_is_newest(data: Seq<u8>, hash: int, c: int, before: int)
    requires
        0 <= c < before,
        before + 2 <= data.len(),
        recorded(data, c),
        hash_at(data, c) == hash,
    ensures
        latest(data, hash, before) >= c,
        latest(data, hash, before) > c ==> newer(data, hash, c, before) == 1 + newer(
            data,
            hash,
            c,
            latest(data, hash, before),
        ),
    decreases before,
{
    if !(recorded(data, before - 1) && hash_at(data, before - 1) == hash) {
        lemma_latest_is_newest(data, hash, c, before - 1);
    }
}

/// A search finds a match at least as long as any candidate that it reaches, and
/// of candidates of one length the nearest.
proof fn lemma_search_finds_best(
    data: Seq<u8>,
    pos: int,
    before: int,
    left: nat,
    best: (nat, int),
    c: int,
)
    requires
        0 <= c < before <= pos,
        pos + 3 <= data.len(),
        recorded(data, c),
        newer(data, hash_at(data, c), c, before) < left,
        pos - c <= HISTORY_SIZE,
    ensures
        ({
            let hash = hash_at(data, c);
            let found = search(data, pos, latest(data, hash, before), left, best);
            let length = common_length(data, c, pos, length_limit(data, pos));
            &&& found.0 >= length
            &&& found.0 == length && found.0 > best.0 ==> found.1 <= pos - c
        }),
    decreases left,
{
    let hash = hash_at(data, c);
    let candidate = latest(data, hash, before);
    lemma_latest(data, hash, before);
    lemma_latest_is_newest(data, hash, c, before);
    let length = common_length(data, candidate, pos, length_limit(data, pos));
    let better = if length > best.0 {
        (length, pos - candidate)
    } else {
        best
    };
    let next = latest(data, hash, candidate);
    lemma_latest(data, hash, candidate);
    lemma_search(data, pos, next, (left - 1) as nat, better);
    if candidate > c {
        lemma_search_finds_best(data, pos, candidate, (left - 1) as nat, better, c);
    }
}

/// Bytes that agree lie within the common length.
proof fn lemma_agreement_is_common(data: Seq<u8>, a: int, b: int, limit: nat, n: nat)
    requires
        n <= limit,
        agree(data, a, b, n as int),
    ensures
        n <= common_length(data, a, b, limit),
    decreases n,
{
    if n > 0 {
        assert(data[a + 0] == data[b + 0]);
        assert forall|j: int| 0 <= j < n - 1 implies data[a + 1 + j] == #[trigger] data[b + 1
            + j] by {
            assert(data[a + (j + 1)] == data[b + (j + 1)]);
        }
        lemma_agreement_is_common(data, a + 1, b + 1, (limit - 1) as nat, (n - 1) as nat);
    }
}

/// Where the three bytes at a position stood before, a match is written: at least
/// as long as the run from any earlier place, up to 65535 bytes, and of runs of one
/// length the nearest. The places that count are those among the first 2500000
/// bytes, no more than as many back, with fewer than 32 others in between that
/// could be taken for them.
pub proof fn matches_are_the_longest(data: Seq<u8>, pos: int, c: int, n: nat)
    requires
        0 <= c < pos,
        pos + 3 <= data.len(),
        c < 2_500_000,
        pos - c <= 2_500_000,
        newer(data, hash_at(data, pos), c, pos) < 32,
        3 <= n <= 65535,
        pos + n <= data.len(),
        forall|j: int| 0 <= j < n ==> data[c + j] == #[trigger] data[pos + j],
    ensures
        token_at(data, pos) matches Token::Match { distance, length } && n <= length && (n == length
            ==> distance <= pos - c) && length <= 65535,
{
    assert(data[c + 0] == data[pos + 0]);
    assert(data[c + 1] == data[pos + 1]);
    assert(data[c + 2] == data[pos + 2]);
    assert(hash_at(data, c) == hash_at(data, pos));
    lemma_agreement_is_common(data, c, pos, length_limit(data, pos), n);
    lemma_search_finds_best(data, pos, pos, 32, (2nat, 0int), c);
    lemma_best_match(data, pos);
    let length = common_length(data, c, pos, length_limit(data, pos));
    let found = best_match(data, pos);
    if n == found.0 {
        assert(length == n);
    }
}

/// A position where no match is written has its byte written.
pub proof fn other_bytes_are_written_as_they_are(data: Seq<u8>, pos: int)
    ensures
        token_at(data, pos) matches Token::Literal(byte) ==> byte == data[pos],
        pos + 3 > data.len() ==> token_at(data, pos) is Literal,
{
}

/// Data is compressed just where that makes it shorter and it has at least three
/// bytes; the first byte of a segment tells which was done.
pub proof fn compression_is_used_where_it_helps(data: Seq<u8>)
    ensures
        data.len() >= 3 && compressed(data).len() < data.len() ==> segment(data) == seq![0x24u8]
            + compressed(data),
        !(data.len() >= 3 && compressed(data).len() < data.len()) ==> segment(data)
            == seq![0x04u8] + data,
{
}

/// A search returns its starting point, or a match from a place in the bucket that
/// it reaches in the given number of steps.
proof fn lemma_search_reach(
    data: Seq<u8>,
    pos: int,
    hash: int,
    before: int,
    left: nat,
    best: (nat, int),
)
    requires
        0 <= before <= pos,
        pos + 3 <= data.len(),
    ensures
        ({
            let found = search(data, pos, latest(data, hash, before), left, best);
            let c = pos - found.1;
            found == best || (0 <= c < before && recorded(data, c) && hash_at(data, c) == hash
                && newer(data, hash, c, before) < left)
        }),
    decreases left,
{
    let candidate = latest(data, hash, before);
    lemma_latest(data, hash, before);
    if !(candidate < 0 || left == 0 || pos - candidate > HISTORY_SIZE) {
        let length = common_length(data, candidate, pos, length_limit(data, pos));
        let better = if length > best.0 {
            (length, pos - candidate)
        } else {
            best
        };
        lemma_search_reach(data, pos, hash, candidate, (left - 1) as nat, better);
        lemma_none_newer(data, hash, before);
        let found = search(
            data,
            pos,
            latest(data, hash, candidate),
            (left - 1) as nat,
            better,
        );
        if found != better {
            lemma_latest_is_newest(data, hash, pos - found.1, before);
        }
    }
}

/// Nothing in a bucket is newer than the last position in it.
proof fn lemma_none_newer(data: Seq<u8>, hash: int, before: int)
    requires
        0 <= before,
        before + 3 <= data.len(),
    ensures
        latest(data, hash, before) >= 0 ==> newer(
            data,
            hash,
            latest(data, hash, before),
            before,
        ) == 0,
    decreases before,
{
    lemma_latest(data, hash, before);
    if before > 0 && !(recorded(data, before - 1) && hash_at(data, before - 1) == hash) {
        lemma_none_newer(data, hash, before - 1);
        lemma_latest(data, hash, before - 1);
    }
}

/// A match is found in at most 32 steps: it comes from one of the first 2500000
/// positions, with fewer than 32 others in between that could be taken for it.
pub proof fn matches_are_found_in_few_steps(data: Seq<u8>, pos: int)
    requires
        0 <= pos < data.len(),
    ensures
        token_at(data, pos) matches Token::Match { distance, .. } ==> {
            let c = pos - distance;
            &&& 0 <= c < 2_500_000
            &&& hash_at(data, c) == hash_at(data, pos)
            &&& newer(data, hash_at(data, pos), c, pos) < 32
        },
{
    if has_match(data, pos) {
        lemma_best_match(data, pos);
        lemma_search_reach(data, pos, hash_at(data, pos), pos, 32, (2nat, 0int));
    }
}

} // verus!
