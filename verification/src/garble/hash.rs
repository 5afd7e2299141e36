//! Hashes of encrypted gates.
//!
//! Both parties may hash the encrypted gates that pass between them, to
//! compare afterwards. An encrypted gate is hashed as its two rows, 16 bytes
//! each, least significant byte first; the digest is BLAKE3's, computed by
//! `blake3`.

use vstd::prelude::*;

verus! {

/// The `n` lowest bytes of `v`, least significant first.
pub open spec fn le_bytes(v: nat, n: nat) -> Seq<u8>
    decreases n,
{
    if n == 0 {
        Seq::empty()
    } else {
        seq![(v % 256) as u8] + le_bytes(v / 256, (n - 1) as nat)
    }
}

/// The bytes of an encrypted gate: its two rows, 16 bytes each.
pub open spec fn gate_bytes(rows: (u128, u128)) -> Seq<u8> {
    le_bytes(rows.0 as nat, 16) + le_bytes(rows.1 as nat, 16)
}

/// The bytes of encrypted gates, one after the other.
pub open spec fn gates_bytes(tables: Seq<(u128, u128)>) -> Seq<u8>
    decreases tables.len(),
{
    if tables.len() == 0 {
        Seq::empty()
    } else {
        gates_bytes(tables.drop_last()) + gate_bytes(tables.last())
    }
}

/// The BLAKE3 digest of a byte string.
pub uninterp spec fn blake3_digest(input: Seq<u8>) -> Seq<u8>;

/// The digest of the encrypted gates from position `from` on, where hashing
/// started there; none where it never started.
pub open spec fn gates_digest(tables: Seq<(u128, u128)>, from: Option<nat>) -> Option<Seq<u8>> {
    match from {
        Some(k) => Some(blake3_digest(gates_bytes(tables.subrange(k as int, tables.len() as int)))),
        None => None,
    }
}

/// Hashes `input` with `blake3::hash`, which returns the 32-byte BLAKE3
/// digest of the input; it depends on the input alone.
#[verifier::external_body]
fn blake3_hash(input: &[u8]) -> (r: [u8; 32])
    ensures
        r@ == blake3_digest(input@),
{
    blake3::hash(input).into()
}

/// Appends the 16 bytes of `v`, least significant first.
fn push_block_bytes(out: &mut Vec<u8>, v: u128)
    ensures
        final(out)@ == old(out)@ + le_bytes(v as nat, 16),
{
    let mut x = v;
    let mut i: usize = 0;
    while i < 16
        invariant
            i <= 16,
            out@ + le_bytes(x as nat, (16 - i) as nat) == old(out)@ + le_bytes(v as nat, 16),
        decreases 16 - i,
    {
        let ghost before = out@;
        let ghost xb = x as nat;
        let ghost m = (16 - i) as nat;
        let b = (x & 0xff) as u8;
        proof {
            assert(x & 0xff == x % 256) by (bit_vector);
            assert(x >> 8 == x / 256) by (bit_vector);
            assert(le_bytes(xb, m) == seq![(xb % 256) as u8] + le_bytes(xb / 256, (m - 1) as nat));
        }
        out.push(b);
        x = x >> 8;
        i = i + 1;
        proof {
            assert(before + le_bytes(xb, m) =~= out@ + le_bytes(x as nat, (16 - i) as nat));
        }
    }
}

/// The bytes of the encrypted gates seen since hashing was enabled, if it
/// was, to be hashed at the end.
pub struct GateHasher {
    bytes: Option<Vec<u8>>,
    from: Ghost<Option<nat>>,
}

impl GateHasher {
    /// The number of gates seen before hashing was enabled, if it was.
    pub closed spec fn from(&self) -> Option<nat> {
        self.from@
    }

    /// The hasher holds the gates of `tables` seen since it was enabled.
    pub closed spec fn tracks(&self, tables: Seq<(u128, u128)>) -> bool {
        match (self.bytes, self.from@) {
            (Some(b), Some(k)) => k <= tables.len() && b@ == gates_bytes(
                tables.subrange(k as int, tables.len() as int),
            ),
            (None, None) => true,
            _ => false,
        }
    }

    /// A hasher that is not enabled.
    pub(crate) fn new() -> (r: Self)
        ensures
            r.from() is None,
            forall|tables: Seq<(u128, u128)>| r.tracks(tables),
    {
        GateHasher { bytes: None, from: Ghost(None) }
    }

    /// Enables hashing, from the gates after those of `tables` on; any bytes
    /// held before are dropped.
    pub(crate) fn enable(&mut self, Ghost(tables): Ghost<Seq<(u128, u128)>>)
        ensures
            final(self).from() == Some(tables.len()),
            final(self).tracks(tables),
    {
        self.bytes = Some(Vec::new());
        self.from = Ghost(Some(tables.len()));
        proof {
            assert(tables.subrange(tables.len() as int, tables.len() as int) =~= Seq::<(u128, u128)>::empty());
        }
    }

    /// Takes in the next encrypted gate, `rows`, if hashing is enabled.
    pub(crate) fn absorb(&mut self, Ghost(tables): Ghost<Seq<(u128, u128)>>, rows: (u128, u128))
        requires
            old(self).tracks(tables),
        ensures
            final(self).tracks(tables.push(rows)),
            final(self).from() == old(self).from(),
    {
        let ghost from = self.from@;
        match self.bytes.take() {
            Some(mut b) => {
                let ghost before = b@;
                push_block_bytes(&mut b, rows.0);
                push_block_bytes(&mut b, rows.1);
                proof {
                    let k = from->0 as int;
                    let s = tables.subrange(k, tables.len() as int);
                    let t = tables.push(rows).subrange(k, tables.len() + 1int);
                    assert(t =~= s.push(rows));
                    assert(t.drop_last() =~= s);
                    assert(b@ =~= before + gate_bytes(rows));
                    assert(gates_bytes(t) == gates_bytes(s) + gate_bytes(rows));
                }
                self.bytes = Some(b);
            },
            None => {},
        }
    }

    /// The digest of the gates hashed, if hashing is enabled.
    pub(crate) fn digest(&self, Ghost(tables): Ghost<Seq<(u128, u128)>>) -> (r: Option<[u8; 32]>)
        requires
            self.tracks(tables),
        ensures
            r is Some <==> self.from() is Some,
            r matches Some(h) ==> gates_digest(tables, self.from()) == Some(h@),
    {
        match &self.bytes {
            Some(b) => Some(blake3_hash(b.as_slice())),
            None => None,
        }
    }
}

} // verus!
