//! Decision core of the MEV-share arbitrage strategy: a mapping from
//! watched pool addresses to their counterpart pools, loaded once at startup,
//! and the rule that turns one MEV-share event into the ladder of backrun
//! bundles to submit. Querying the chain, signing and submitting are I/O and
//! live outside the library; they hand the decision core plain values.

use vstd::prelude::*;

use crate::mevshare::Event;

verus! {

/// Information about a pool of the two-sided venue.
#[derive(Clone, Debug)]
pub struct V2PoolInfo {
    /// Address of the pool, as 20 bytes.
    pub v2_pool: Vec<u8>,
    /// Whether the pool has WETH as its first token.
    pub is_weth_token0: bool,
}

/// One row of the token-to-pools table.
#[derive(Clone, Debug)]
pub struct PoolRecord {
    /// Token address, as 20 bytes.
    pub token_address: Vec<u8>,
    /// Address of the token's first-venue pool.
    pub uni_pool_address: Vec<u8>,
    /// Address of the token's second-venue pool.
    pub sushi_pool_address: Vec<u8>,
}

/// One row of the pool-pair table the strategy loads at startup.
#[derive(Clone, Debug)]
pub struct V2V3PoolRecord {
    /// Token address, as 20 bytes.
    pub token_address: Vec<u8>,
    /// Address of the concentrated-liquidity pool to watch.
    pub v3_pool: Vec<u8>,
    /// Address of the paired constant-product pool.
    pub v2_pool: Vec<u8>,
    /// Whether the paired pool has WETH as its first token.
    pub weth_token0: bool,
}

/// Mathematical form of one pool-pair row: the three addresses as their
/// bytes, and the WETH position.
pub struct PoolRowModel {
    /// Token address bytes.
    pub token_address: Seq<u8>,
    /// Watched-pool address bytes.
    pub v3_pool: Seq<u8>,
    /// Paired-pool address bytes.
    pub v2_pool: Seq<u8>,
    /// Whether the paired pool has WETH as its first token.
    pub weth_token0: bool,
}

impl View for V2V3PoolRecord {
    type V = PoolRowModel;

    open spec fn view(&self) -> PoolRowModel {
        PoolRowModel {
            token_address: self.token_address@,
            v3_pool: self.v3_pool@,
            v2_pool: self.v2_pool@,
            weth_token0: self.weth_token0,
        }
    }
}

/// An ASCII hexadecimal digit.
pub open spec fn is_hex_digit(c: u8) -> bool {
    (48 <= c <= 57) || (97 <= c <= 102) || (65 <= c <= 70)
}

/// The value of one hexadecimal digit.
pub open spec fn hex_value(c: u8) -> u8 {
    if 48 <= c <= 57 {
        (c - 48) as u8
    } else if 97 <= c <= 102 {
        (c - 87) as u8
    } else if 65 <= c <= 70 {
        (c - 55) as u8
    } else {
        0
    }
}

/// The twenty bytes forty hexadecimal digits spell.
pub open spec fn hex_address_bytes(h: Seq<u8>) -> Seq<u8> {
    Seq::new(20, |i: int| (16 * hex_value(h[2 * i]) + hex_value(h[2 * i + 1])) as u8)
}

/// An address field's hexadecimal digits: the field without its optional
/// `0x` prefix.
pub open spec fn address_hex_digits(f: Seq<u8>) -> Seq<u8> {
    if f.len() >= 2 && f[0] == 48 && f[1] == 120 {
        f.skip(2)
    } else {
        f
    }
}

/// What an address field parses to: forty hexadecimal digits, with an
/// optional `0x` prefix, spelling twenty bytes; anything else is rejected.
pub open spec fn parse_address_field(f: Seq<u8>) -> Option<Seq<u8>> {
    if address_hex_digits(f).len() == 40 && (forall|k: int|
        0 <= k < 40 ==> is_hex_digit(address_hex_digits(f)[k])) {
        Some(hex_address_bytes(address_hex_digits(f)))
    } else {
        None
    }
}

/// What a boolean field parses to: exactly `true` or `false`.
pub open spec fn parse_bool_field(f: Seq<u8>) -> Option<bool> {
    if f == seq![116u8, 114u8, 117u8, 101u8] {
        Some(true)
    } else if f == seq![102u8, 97u8, 108u8, 115u8, 101u8] {
        Some(false)
    } else {
        None
    }
}

/// The comma-separated fields of one row; a row without commas is one field.
pub open spec fn split_fields(b: Seq<u8>) -> Seq<Seq<u8>>
    decreases b.len(),
{
    match crate::frames::find_first(b, seq![44u8]) {
        Some(p) => if 0 <= p < b.len() {
            seq![b.subrange(0, p)] + split_fields(b.subrange(p + 1, b.len() as int))
        } else {
            seq![b]
        },
        None => seq![b],
    }
}

/// A row without its trailing carriage return, if it carries one.
pub open spec fn strip_cr(line: Seq<u8>) -> Seq<u8> {
    if line.len() > 0 && line.last() == 13 {
        line.drop_last()
    } else {
        line
    }
}

/// What one row parses to: exactly four fields — token address, watched
/// pool, paired pool, WETH position — each well-formed.
pub open spec fn parse_row(line: Seq<u8>) -> Option<PoolRowModel> {
    let fs = split_fields(strip_cr(line));
    if fs.len() == 4 {
        match (parse_address_field(fs[0]), parse_address_field(fs[1]), parse_address_field(fs[2]),
        parse_bool_field(fs[3])) {
            (Some(token), Some(v3), Some(v2), Some(w)) => Some(
                PoolRowModel { token_address: token, v3_pool: v3, v2_pool: v2, weth_token0: w },
            ),
            _ => None,
        }
    } else {
        None
    }
}

/// What a sequence of rows parses to: blank rows are skipped, and one
/// malformed row rejects the whole table.
pub open spec fn parse_rows(lines: Seq<Seq<u8>>) -> Option<Seq<PoolRowModel>>
    decreases lines.len(),
{
    if lines.len() == 0 {
        Some(seq![])
    } else if strip_cr(lines[0]).len() == 0 {
        parse_rows(lines.skip(1))
    } else {
        match (parse_row(lines[0]), parse_rows(lines.skip(1))) {
            (Some(r), Some(rest)) => Some(seq![r] + rest),
            _ => None,
        }
    }
}

/// What the whole pool table parses to: the first line is the header and
/// carries no row; every later non-blank line is one row.
pub open spec fn parse_table(text: Seq<u8>) -> Option<Seq<PoolRowModel>> {
    let lines = crate::mevshare::split_lines(text);
    if lines.len() == 0 {
        Some(seq![])
    } else {
        parse_rows(lines.skip(1))
    }
}

/// The value of one hexadecimal digit, or `None` for any other byte.
fn hex_digit_value(c: u8) -> (r: Option<u8>)
    ensures
        match r {
            Some(v) => is_hex_digit(c) && v == hex_value(c) && v < 16,
            None => !is_hex_digit(c),
        },
{
    if 48 <= c && c <= 57 {
        Some(c - 48)
    } else if 97 <= c && c <= 102 {
        Some(c - 87)
    } else if 65 <= c && c <= 70 {
        Some(c - 55)
    } else {
        None
    }
}

/// Parse one address field into its twenty bytes.
fn parse_address_exec(field: &Vec<u8>) -> (r: Option<Vec<u8>>)
    ensures
        match parse_address_field(field@) {
            Some(bs) => r matches Some(v) && v@ == bs,
            None => r is None,
        },
{
    let off: usize = if field.len() >= 2 && field[0] == 48 && field[1] == 120 {
        2
    } else {
        0
    };
    let ghost h = address_hex_digits(field@);
    proof {
        assert(h =~= field@.skip(off as int));
    }
    if field.len() < off || field.len() - off != 40 {
        return None;
    }
    let mut out: Vec<u8> = Vec::new();
    let mut i: usize = 0;
    while i < 20
        invariant
            off + 40 == field@.len(),
            field@.len() <= usize::MAX,
            h == field@.skip(off as int),
            h == address_hex_digits(field@),
            h.len() == 40,
            0 <= i <= 20,
            out@.len() == i,
            forall|k: int| 0 <= k < 2 * i ==> is_hex_digit(h[k]),
            forall|k: int|
                0 <= k < i ==> out@[k] == (16 * hex_value(h[2 * k]) + hex_value(h[2 * k + 1])) as u8,
        decreases 20 - i,
    {
        let c1 = field[off + 2 * i];
        let c2 = field[off + 2 * i + 1];
        proof {
            assert(h[2 * i as int] == field@[off + 2 * i]);
            assert(h[2 * i as int + 1] == field@[off + 2 * i + 1]);
        }
        let a = match hex_digit_value(c1) {
            Some(a) => a,
            None => {
                proof {
                    assert(!is_hex_digit(address_hex_digits(field@)[2 * i as int]));
                }
                return None;
            },
        };
        let b = match hex_digit_value(c2) {
            Some(b) => b,
            None => {
                proof {
                    assert(!is_hex_digit(address_hex_digits(field@)[2 * i as int + 1]));
                }
                return None;
            },
        };
        out.push(16 * a + b);
        i += 1;
    }
    proof {
        assert(out@ =~= hex_address_bytes(h));
    }
    Some(out)
}

/// Parse one boolean field.
fn parse_bool_exec(field: &Vec<u8>) -> (r: Option<bool>)
    ensures
        r == parse_bool_field(field@),
{
    let yes = vec![116u8, 114u8, 117u8, 101u8];
    let no = vec![102u8, 97u8, 108u8, 115u8, 101u8];
    proof {
        assert(yes@ =~= seq![116u8, 114u8, 117u8, 101u8]);
        assert(no@ =~= seq![102u8, 97u8, 108u8, 115u8, 101u8]);
    }
    if bytes_eq(field, &yes) {
        Some(true)
    } else if bytes_eq(field, &no) {
        Some(false)
    } else {
        None
    }
}

/// Split one row into its comma-separated fields.
fn split_fields_exec(line: Vec<u8>) -> (r: Vec<Vec<u8>>)
    ensures
        r@.map_values(|f: Vec<u8>| f@) == split_fields(line@),
{
    let ghost l0 = line@;
    let mut work = line;
    let mut fields: Vec<Vec<u8>> = Vec::new();
    let comma = vec![44u8];
    proof {
        assert(comma@ =~= seq![44u8]);
    }
    loop
        invariant_except_break
            comma@ == seq![44u8],
            split_fields(l0) == fields@.map_values(|f: Vec<u8>| f@) + split_fields(work@),
        ensures
            fields@.map_values(|f: Vec<u8>| f@) == split_fields(l0),
        decreases work@.len(),
    {
        let ghost w0 = work@;
        if let Some(p) = crate::frames::find_pattern(&work, &comma) {
            proof {
                crate::frames::lemma_find_from_characterizes(work@, seq![44u8], 0);
            }
            let mut tail = work.split_off(p);
            let mut rest = tail.split_off(1);
            core::mem::swap(&mut work, &mut rest);
            proof {
                assert(rest@ =~= w0.subrange(0, p as int));
                assert(work@ =~= w0.subrange(p + 1, w0.len() as int));
                assert(split_fields(w0) =~= seq![rest@] + split_fields(work@));
            }
            let ghost fs_prev = fields@;
            fields.push(rest);
            proof {
                assert(fields@.map_values(|f: Vec<u8>| f@) =~= fs_prev.map_values(
                    |f: Vec<u8>| f@,
                ).push(w0.subrange(0, p as int)));
                assert(fs_prev.map_values(|f: Vec<u8>| f@) + (seq![w0.subrange(0, p as int)]
                    + split_fields(work@)) =~= fields@.map_values(|f: Vec<u8>| f@) + split_fields(
                    work@,
                ));
            }
        } else {
            proof {
                assert(split_fields(w0) =~= seq![w0]);
            }
            let ghost fs_prev = fields@;
            fields.push(work);
            proof {
                assert(fields@.map_values(|f: Vec<u8>| f@) =~= fs_prev.map_values(
                    |f: Vec<u8>| f@,
                ).push(w0));
                assert(fields@.map_values(|f: Vec<u8>| f@) =~= split_fields(l0));
            }
            break;
        }
    }
    fields
}

/// Parse one non-blank row of the pool table.
fn parse_row_exec(line: Vec<u8>) -> (r: Option<V2V3PoolRecord>)
    ensures
        match parse_row(line@) {
            Some(m) => r matches Some(rec) && rec@ == m,
            None => r is None,
        },
{
    let ghost raw = line@;
    let mut l = line;
    if l.len() > 0 && l[l.len() - 1] == 13 {
        let n = l.len();
        l.truncate(n - 1);
        proof {
            assert(l@ =~= raw.drop_last());
        }
    }
    proof {
        assert(l@ == strip_cr(raw));
    }
    let fields = split_fields_exec(l);
    if fields.len() != 4 {
        return None;
    }
    proof {
        assert(fields@.map_values(|f: Vec<u8>| f@)[0] == fields@[0]@);
        assert(fields@.map_values(|f: Vec<u8>| f@)[1] == fields@[1]@);
        assert(fields@.map_values(|f: Vec<u8>| f@)[2] == fields@[2]@);
        assert(fields@.map_values(|f: Vec<u8>| f@)[3] == fields@[3]@);
    }
    let token_address = match parse_address_exec(&fields[0]) {
        Some(v) => v,
        None => {
            return None;
        },
    };
    let v3_pool = match parse_address_exec(&fields[1]) {
        Some(v) => v,
        None => {
            return None;
        },
    };
    let v2_pool = match parse_address_exec(&fields[2]) {
        Some(v) => v,
        None => {
            return None;
        },
    };
    let weth_token0 = match parse_bool_exec(&fields[3]) {
        Some(b) => b,
        None => {
            return None;
        },
    };
    Some(V2V3PoolRecord { token_address, v3_pool, v2_pool, weth_token0 })
}

/// Parse the whole pool-pair table: the first line is the header, blank
/// lines are skipped, and every other line is one row of exactly four
/// fields. One malformed row rejects the whole table, as reloading it would.
pub fn parse_pool_records(text: Vec<u8>) -> (r: Result<Vec<V2V3PoolRecord>, String>)
    ensures
        match parse_table(text@) {
            Some(rows) => r matches Ok(v) && v@.map_values(|rec: V2V3PoolRecord| rec@) == rows,
            None => r is Err,
        },
{
    let ghost t0 = text@;
    let mut work = text;
    let mut records: Vec<V2V3PoolRecord> = Vec::new();
    let header = crate::mevshare::next_line(&mut work);
    if header.is_none() {
        proof {
            assert(records@.map_values(|rec: V2V3PoolRecord| rec@) =~= Seq::<PoolRowModel>::empty());
        }
        return Ok(records);
    }
    let ghost all_rows = crate::mevshare::split_lines(work@);
    proof {
        assert(crate::mevshare::split_lines(t0).skip(1) =~= all_rows);
        assert(crate::mevshare::split_lines(t0).len() > 0);
        assert(parse_table(t0) == parse_rows(all_rows));
    }
    loop
        invariant
            t0 == text@,
            parse_table(t0) == parse_rows(all_rows),
            match parse_rows(crate::mevshare::split_lines(work@)) {
                Some(rest) => parse_rows(all_rows) == Some(
                    records@.map_values(|rec: V2V3PoolRecord| rec@) + rest,
                ),
                None => parse_rows(all_rows) is None,
            },
        ensures
            parse_table(t0) == parse_rows(all_rows),
            parse_rows(all_rows) matches Some(rows) && records@.map_values(
                |rec: V2V3PoolRecord| rec@,
            ) == rows,
        decreases work@.len(),
    {
        let ghost w0 = work@;
        let line = match crate::mevshare::next_line(&mut work) {
            None => {
                proof {
                    assert(records@.map_values(|rec: V2V3PoolRecord| rec@)
                        + Seq::<PoolRowModel>::empty() =~= records@.map_values(
                        |rec: V2V3PoolRecord| rec@,
                    ));
                }
                break;
            },
            Some(line) => line,
        };
        let ghost l = line@;
        let ghost rest_rows = crate::mevshare::split_lines(work@);
        proof {
            assert((seq![l] + rest_rows)[0] == l);
            assert((seq![l] + rest_rows).skip(1) =~= rest_rows);
        }
        let blank = line.len() == 0 || (line.len() == 1 && line[0] == 13);
        proof {
            assert(blank <==> strip_cr(l).len() == 0);
        }
        if blank {
            proof {
                assert(parse_rows(seq![l] + rest_rows) == parse_rows(rest_rows));
            }
            continue;
        }
        match parse_row_exec(line) {
            Some(record) => {
                let ghost rs_prev = records@;
                let ghost m = record@;
                records.push(record);
                proof {
                    assert(records@.map_values(|rec: V2V3PoolRecord| rec@) =~= rs_prev.map_values(
                        |rec: V2V3PoolRecord| rec@,
                    ).push(m));
                    if parse_rows(rest_rows) is Some {
                        let rest = parse_rows(rest_rows)->Some_0;
                        assert(parse_rows(seq![l] + rest_rows) == Some(seq![m] + rest));
                        assert(rs_prev.map_values(|rec: V2V3PoolRecord| rec@) + (seq![m] + rest)
                            =~= records@.map_values(|rec: V2V3PoolRecord| rec@) + rest);
                    } else {
                        assert(parse_rows(seq![l] + rest_rows) is None);
                    }
                }
            },
            None => {
                proof {
                    assert(parse_rows(seq![l] + rest_rows) is None);
                }
                return Err("malformed pool table row".to_string());
            },
        }
    }
    Ok(records)
}

/// The pool-pair entry a record loads.
pub open spec fn record_entry(r: V2V3PoolRecord) -> (Vec<u8>, V2PoolInfo) {
    (r.v3_pool, V2PoolInfo { v2_pool: r.v2_pool, is_weth_token0: r.weth_token0 })
}

/// The latest entry for `key` among `entries`, later entries overriding
/// earlier ones, as repeated loading would leave it.
pub open spec fn lookup_entry(entries: Seq<(Vec<u8>, V2PoolInfo)>, key: Seq<u8>) -> Option<
    V2PoolInfo,
>
    decreases entries.len(),
{
    if entries.len() == 0 {
        None
    } else if entries.last().0@ == key {
        Some(entries.last().1)
    } else {
        lookup_entry(entries.drop_last(), key)
    }
}

/// Chain-wide parameters fetched just before bundles are planned.
#[derive(Clone, Debug)]
pub struct ChainContext {
    /// The gas price to bid.
    pub bid_gas_price: u128,
    /// The latest block number.
    pub block_number: u64,
    /// The chain identifier.
    pub chain_id: u64,
    /// The sender's next nonce.
    pub nonce: u64,
    /// The sender address, as 20 bytes.
    pub sender: Vec<u8>,
}

/// One planned backrun bundle: everything the transport needs to build, sign
/// and submit it, as plain values.
#[derive(Clone, Debug)]
pub struct BundlePlan {
    /// Address of the constant-product pool of the arbitrage.
    pub v2_pool: Vec<u8>,
    /// Address of the concentrated-liquidity pool of the arbitrage.
    pub v3_pool: Vec<u8>,
    /// Whether the constant-product pool has WETH as its first token.
    pub weth_token0: bool,
    /// The amount swapped in.
    pub amount_in: u128,
    /// Percentage of the proceeds paid to the block producer.
    pub payment_percentage: u128,
    /// Hash of the transaction the bundle backruns, as 32 bytes.
    pub target_tx_hash: Vec<u8>,
    /// Gas limit of the arbitrage transaction.
    pub gas_limit: u64,
    /// Gas price of the arbitrage transaction.
    pub gas_price: u128,
    /// Chain identifier of the arbitrage transaction.
    pub chain_id: u64,
    /// Nonce of the arbitrage transaction.
    pub nonce: u64,
    /// Sender of the arbitrage transaction, as 20 bytes.
    pub sender: Vec<u8>,
    /// First block the bundle is valid in.
    pub inclusion_block: u64,
    /// Last block the bundle is valid in.
    pub max_inclusion_block: u64,
}

/// Gas limit given to every planned arbitrage transaction.
pub const PLAN_GAS_LIMIT: u64 = 400000;

/// How many blocks past the current one a bundle stays valid: bundles ask
/// for inclusion from the next block up to this many blocks ahead, a large
/// window so builders get a chance to include them.
pub const INCLUSION_WINDOW: u64 = 30;

/// The sizes of the backruns submitted for one opportunity: a ladder of
/// powers of ten.
pub open spec fn spec_backrun_sizes() -> Seq<u128> {
    seq![
        100000u128,
        1000000u128,
        10000000u128,
        100000000u128,
        1000000000u128,
        10000000000u128,
        100000000000u128,
        1000000000000u128,
        10000000000000u128,
        100000000000000u128,
        1000000000000000u128,
        10000000000000000u128,
        100000000000000000u128,
        1000000000000000000u128,
    ]
}

/// The ladder of backrun sizes, largest last.
pub fn backrun_sizes() -> (r: Vec<u128>)
    ensures
        r@ == spec_backrun_sizes(),
{
    let r = vec![
        100000u128,
        1000000u128,
        10000000u128,
        100000000u128,
        1000000000u128,
        10000000000u128,
        100000000000u128,
        1000000000000u128,
        10000000000000u128,
        100000000000000u128,
        1000000000000000u128,
        10000000000000000u128,
        100000000000000000u128,
        1000000000000000000u128,
    ];
    proof {
        assert(r@ =~= spec_backrun_sizes());
    }
    r
}

/// The MEV-share arbitrage strategy's state: the pool pairs it watches,
/// keyed by the address of the watched pool.
pub struct MevShareUniArb {
    pool_map: Vec<(Vec<u8>, V2PoolInfo)>,
}

/// Copy a byte vector.
fn copy_bytes(v: &Vec<u8>) -> (r: Vec<u8>)
    ensures
        r@ == v@,
{
    let mut r: Vec<u8> = Vec::new();
    let mut i: usize = 0;
    while i < v.len()
        invariant
            0 <= i <= v@.len(),
            r@ == v@.take(i as int),
        decreases v@.len() - i,
    {
        r.push(v[i]);
        proof {
            assert(v@.take(i as int).push(v@[i as int]) =~= v@.take(i as int + 1));
        }
        i += 1;
    }
    proof {
        assert(v@.take(v@.len() as int) =~= v@);
    }
    r
}

/// Whether two byte vectors hold the same bytes.
fn bytes_eq(a: &Vec<u8>, b: &Vec<u8>) -> (r: bool)
    ensures
        r <==> a@ == b@,
{
    if a.len() != b.len() {
        return false;
    }
    let mut i: usize = 0;
    while i < a.len()
        invariant
            a@.len() == b@.len(),
            0 <= i <= a@.len(),
            forall|k: int| 0 <= k < i ==> a@[k] == b@[k],
        decreases a@.len() - i,
    {
        if a[i] != b[i] {
            return false;
        }
        i += 1;
    }
    proof {
        assert(a@ =~= b@);
    }
    true
}

impl MevShareUniArb {
    /// The loaded pool-pair entries, in load order.
    pub closed spec fn entries(&self) -> Seq<(Vec<u8>, V2PoolInfo)> {
        self.pool_map@
    }

    /// The pool pair watched under `key`, if any.
    pub open spec fn pool_for(&self, key: Seq<u8>) -> Option<V2PoolInfo> {
        lookup_entry(self.entries(), key)
    }

    /// A strategy with nothing loaded yet.
    pub fn new() -> (r: MevShareUniArb)
        ensures
            r.entries() == Seq::<(Vec<u8>, V2PoolInfo)>::empty(),
    {
        let r = MevShareUniArb { pool_map: Vec::new() };
        proof {
            assert(r.entries() =~= Seq::<(Vec<u8>, V2PoolInfo)>::empty());
        }
        r
    }

    /// Load the pool-pair table: append one entry per record, in order, later
    /// records overriding earlier ones with the same watched address.
    pub fn sync_state(&mut self, records: Vec<V2V3PoolRecord>)
        ensures
            final (self).entries() == old(self).entries() + records@.map_values(
                |r: V2V3PoolRecord| record_entry(r),
            ),
    {
        let ghost e0 = self.pool_map@;
        let ghost rv = records@;
        let mut todo = records;
        let ghost mut i: int = 0;
        while todo.len() > 0
            invariant
                0 <= i <= rv.len(),
                todo@ == rv.skip(i),
                self.pool_map@ == e0 + rv.take(i).map_values(|r: V2V3PoolRecord| record_entry(r)),
            decreases todo@.len(),
        {
            let r = todo.remove(0);
            let entry = (r.v3_pool, V2PoolInfo { v2_pool: r.v2_pool, is_weth_token0: r.weth_token0 });
            self.pool_map.push(entry);
            proof {
                assert(rv.take(i).map_values(|r: V2V3PoolRecord| record_entry(r)).push(
                    record_entry(rv[i]),
                ) =~= rv.take(i + 1).map_values(|r: V2V3PoolRecord| record_entry(r)));
                assert((e0 + rv.take(i).map_values(|r: V2V3PoolRecord| record_entry(r))).push(
                    record_entry(rv[i]),
                ) =~= e0 + rv.take(i + 1).map_values(|r: V2V3PoolRecord| record_entry(r)));
                assert(todo@ =~= rv.skip(i + 1));
                i = i + 1;
            }
        }
        proof {
            assert(rv.take(i) =~= rv);
        }
    }

    /// The pool pair an event concerns: the entry for the address of the
    /// event's first log, when the event has logs and the address is watched.
    pub fn target_pool(&self, event: &Event) -> (r: Option<&V2PoolInfo>)
        ensures
            event.logs@.len() == 0 ==> r is None,
            event.logs@.len() > 0 ==> match r {
                Some(p) => self.pool_for(event.logs@[0].address@) == Some(*p),
                None => self.pool_for(event.logs@[0].address@) is None,
            },
    {
        if event.logs.len() == 0 {
            return None;
        }
        let key = &event.logs[0].address;
        let mut j = self.pool_map.len();
        proof {
            assert(self.pool_map@.take(j as int) =~= self.pool_map@);
        }
        while j > 0
            invariant
                event.logs@.len() > 0,
                key@ == event.logs@[0].address@,
                0 <= j <= self.pool_map@.len(),
                lookup_entry(self.pool_map@, key@) == lookup_entry(
                    self.pool_map@.take(j as int),
                    key@,
                ),
            decreases j,
        {
            j = j - 1;
            if bytes_eq(&self.pool_map[j].0, key) {
                proof {
                    assert(self.pool_map@.take(j as int + 1).last() == self.pool_map@[j as int]);
                    assert(lookup_entry(self.pool_map@.take(j as int + 1), key@) == Some(
                        self.pool_map@[j as int].1,
                    ));
                }
                return Some(&self.pool_map[j].1);
            }
            proof {
                assert(self.pool_map@.take(j as int + 1).last() == self.pool_map@[j as int]);
                assert(self.pool_map@.take(j as int + 1).drop_last() =~= self.pool_map@.take(
                    j as int,
                ));
                assert(lookup_entry(self.pool_map@.take(j as int + 1), key@) == lookup_entry(
                    self.pool_map@.take(j as int),
                    key@,
                ));
            }
        }
        proof {
            assert(self.pool_map@.take(0) =~= Seq::<(Vec<u8>, V2PoolInfo)>::empty());
        }
        None
    }

    /// Plan the ladder of backrun bundles for one watched event: one bundle
    /// per backrun size, all carrying the same target hash, pools, sender and
    /// inclusion window — the next block, held open for the whole window.
    pub fn plan_bundles(&self, pool: &V2PoolInfo, v3_address: &Vec<u8>, tx_hash: &Vec<u8>, ctx: &ChainContext) -> (plans: Vec<BundlePlan>)
        requires
            ctx.block_number + INCLUSION_WINDOW <= u64::MAX,
        ensures
            plans@.len() == spec_backrun_sizes().len(),
            forall|i: int| 0 <= i < plans@.len() ==> {
                let p = #[trigger] plans@[i];
                &&& p.v2_pool@ == pool.v2_pool@
                &&& p.v3_pool@ == v3_address@
                &&& p.weth_token0 == pool.is_weth_token0
                &&& p.amount_in == spec_backrun_sizes()[i]
                &&& p.payment_percentage == 0
                &&& p.target_tx_hash@ == tx_hash@
                &&& p.gas_limit == PLAN_GAS_LIMIT
                &&& p.gas_price == ctx.bid_gas_price
                &&& p.chain_id == ctx.chain_id
                &&& p.nonce == ctx.nonce
                &&& p.sender@ == ctx.sender@
                &&& p.inclusion_block == ctx.block_number + 1
                &&& p.max_inclusion_block == ctx.block_number + INCLUSION_WINDOW
            },
    {
        let sizes = backrun_sizes();
        let mut plans: Vec<BundlePlan> = Vec::new();
        let mut i: usize = 0;
        while i < sizes.len()
            invariant
                sizes@ == spec_backrun_sizes(),
                ctx.block_number + INCLUSION_WINDOW <= u64::MAX,
                0 <= i <= sizes@.len(),
                plans@.len() == i,
                forall|k: int| 0 <= k < i ==> {
                    let p = #[trigger] plans@[k];
                    &&& p.v2_pool@ == pool.v2_pool@
                    &&& p.v3_pool@ == v3_address@
                    &&& p.weth_token0 == pool.is_weth_token0
                    &&& p.amount_in == spec_backrun_sizes()[k]
                    &&& p.payment_percentage == 0
                    &&& p.target_tx_hash@ == tx_hash@
                    &&& p.gas_limit == PLAN_GAS_LIMIT
                    &&& p.gas_price == ctx.bid_gas_price
                    &&& p.chain_id == ctx.chain_id
                    &&& p.nonce == ctx.nonce
                    &&& p.sender@ == ctx.sender@
                    &&& p.inclusion_block == ctx.block_number + 1
                    &&& p.max_inclusion_block == ctx.block_number + INCLUSION_WINDOW
                },
            decreases sizes@.len() - i,
        {
            let plan = BundlePlan {
                v2_pool: copy_bytes(&pool.v2_pool),
                v3_pool: copy_bytes(v3_address),
                weth_token0: pool.is_weth_token0,
                amount_in: sizes[i],
                payment_percentage: 0,
                target_tx_hash: copy_bytes(tx_hash),
                gas_limit: PLAN_GAS_LIMIT,
                gas_price: ctx.bid_gas_price,
                chain_id: ctx.chain_id,
                nonce: ctx.nonce,
                sender: copy_bytes(&ctx.sender),
                inclusion_block: ctx.block_number + 1,
                max_inclusion_block: ctx.block_number + INCLUSION_WINDOW,
            };
            plans.push(plan);
            i += 1;
        }
        plans
    }

    /// Process one MEV-share event: an event without logs, or whose first
    /// log's address is not watched, plans nothing; a watched event plans the
    /// whole backrun ladder against its target hash.
    pub fn process_event(&self, event: &Event, ctx: &ChainContext) -> (plans: Vec<BundlePlan>)
        requires
            ctx.block_number + INCLUSION_WINDOW <= u64::MAX,
        ensures
            (event.logs@.len() == 0 || (event.logs@.len() > 0 && self.pool_for(
                event.logs@[0].address@,
            ) is None)) ==> plans@.len() == 0,
            event.logs@.len() > 0 ==> match self.pool_for(event.logs@[0].address@) {
                Some(pool) => {
                    &&& plans@.len() == spec_backrun_sizes().len()
                    &&& forall|i: int| 0 <= i < plans@.len() ==> {
                        let p = #[trigger] plans@[i];
                        &&& p.v2_pool@ == pool.v2_pool@
                        &&& p.v3_pool@ == event.logs@[0].address@
                        &&& p.weth_token0 == pool.is_weth_token0
                        &&& p.amount_in == spec_backrun_sizes()[i]
                        &&& p.payment_percentage == 0
                        &&& p.target_tx_hash@ == event.hash@
                        &&& p.gas_limit == PLAN_GAS_LIMIT
                        &&& p.gas_price == ctx.bid_gas_price
                        &&& p.chain_id == ctx.chain_id
                        &&& p.nonce == ctx.nonce
                        &&& p.sender@ == ctx.sender@
                        &&& p.inclusion_block == ctx.block_number + 1
                        &&& p.max_inclusion_block == ctx.block_number + INCLUSION_WINDOW
                    }
                },
                None => plans@.len() == 0,
            },
    {
        let pool = match self.target_pool(event) {
            Some(pool) => pool,
            None => {
                return Vec::new();
            },
        };
        let v3_address = copy_bytes(&event.logs[0].address);
        self.plan_bundles(pool, &v3_address, &event.hash, ctx)
    }
}

} // verus!
