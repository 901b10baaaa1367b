use vstd::prelude::*;

verus! {

/// A 32-byte account key. Wire keys of any other length degrade to the
/// all-zero key rather than failing the surrounding transaction.
#[derive(Debug, Clone, PartialEq, Eq)]
pub struct Pubkey {
    pub bytes: Vec<u8>,
}

impl View for Pubkey {
    type V = Seq<u8>;

    open spec fn view(&self) -> Seq<u8> {
        self.bytes@
    }
}

impl Pubkey {
    pub open spec fn wf(&self) -> bool {
        self@.len() == 32
    }
}

/// The all-zero key that stands in for a wire key of the wrong length.
pub open spec fn zero_key() -> Seq<u8> {
    Seq::new(32, |i: int| 0u8)
}

/// What a wire byte string becomes as an account key: itself when it has
/// exactly 32 bytes, the all-zero key otherwise.
pub open spec fn key32(b: Seq<u8>) -> Seq<u8> {
    if b.len() == 32 {
        b
    } else {
        zero_key()
    }
}

/// Copies a byte vector; used where a wire field feeds two places.
pub fn clone_bytes(v: &Vec<u8>) -> (r: Vec<u8>)
    ensures
        r@ == v@,
{
    let mut out: Vec<u8> = Vec::new();
    let mut i: usize = 0;
    while i < v.len()
        invariant
            i <= v.len(),
            out@ == v@.subrange(0, i as int),
        decreases v.len() - i,
    {
        out.push(v[i]);
        assert(out@ =~= v@.subrange(0, i + 1 as int));
        i = i + 1;
    }
    assert(out@ =~= v@);
    out
}

/// Turns a wire byte string into an account key, degrading to the all-zero
/// key when the length is not exactly 32.
pub fn pubkey_from_wire(b: &Vec<u8>) -> (r: Pubkey)
    ensures
        r@ == key32(b@),
        r.wf(),
{
    if b.len() == 32 {
        Pubkey { bytes: clone_bytes(b) }
    } else {
        let mut z: Vec<u8> = Vec::new();
        let mut i: usize = 0;
        while i < 32
            invariant
                i <= 32,
                z@.len() == i,
                forall|j: int| 0 <= j < i ==> z@[j] == 0u8,
            decreases 32 - i,
        {
            z.push(0u8);
            i = i + 1;
        }
        assert(z@ =~= zero_key());
        Pubkey { bytes: z }
    }
}

/// The compute-budget program's 32-byte id
/// (base58 `ComputeBudget111111111111111111111111111111`).
pub open spec fn compute_budget_program_id() -> Seq<u8> {
    seq![
        3u8, 6u8, 70u8, 111u8, 229u8, 33u8, 23u8, 50u8, 255u8, 236u8, 173u8, 186u8, 114u8, 195u8,
        155u8, 231u8, 188u8, 140u8, 229u8, 187u8, 197u8, 247u8, 18u8, 107u8, 44u8, 67u8, 155u8,
        58u8, 64u8, 0u8, 0u8, 0u8,
    ]
}

/// The vote program's 32-byte id
/// (base58 `Vote111111111111111111111111111111111111111`).
pub open spec fn vote_program_id() -> Seq<u8> {
    seq![
        7u8, 97u8, 72u8, 29u8, 53u8, 116u8, 116u8, 187u8, 124u8, 77u8, 118u8, 36u8, 235u8, 211u8,
        189u8, 179u8, 216u8, 53u8, 94u8, 115u8, 209u8, 16u8, 67u8, 252u8, 13u8, 163u8, 83u8,
        128u8, 0u8, 0u8, 0u8, 0u8,
    ]
}

fn bytes_eq(a: &Vec<u8>, b: &Vec<u8>) -> (r: bool)
    ensures
        r == (a@ == b@),
{
    if a.len() != b.len() {
        return false;
    }
    let mut i: usize = 0;
    while i < a.len()
        invariant
            i <= a.len(),
            a@.len() == b@.len(),
            forall|j: int| 0 <= j < i ==> a@[j] == b@[j],
        decreases a.len() - i,
    {
        if a[i] != b[i] {
            return false;
        }
        i = i + 1;
    }
    assert(a@ =~= b@);
    true
}

fn compute_budget_key() -> (r: Vec<u8>)
    ensures
        r@ == compute_budget_program_id(),
{
    let mut v: Vec<u8> = Vec::new();
    v.push(3u8);
    v.push(6u8);
    v.push(70u8);
    v.push(111u8);
    v.push(229u8);
    v.push(33u8);
    v.push(23u8);
    v.push(50u8);
    v.push(255u8);
    v.push(236u8);
    v.push(173u8);
    v.push(186u8);
    v.push(114u8);
    v.push(195u8);
    v.push(155u8);
    v.push(231u8);
    v.push(188u8);
    v.push(140u8);
    v.push(229u8);
    v.push(187u8);
    v.push(197u8);
    v.push(247u8);
    v.push(18u8);
    v.push(107u8);
    v.push(44u8);
    v.push(67u8);
    v.push(155u8);
    v.push(58u8);
    v.push(64u8);
    v.push(0u8);
    v.push(0u8);
    v.push(0u8);
    assert(v@ =~= compute_budget_program_id());
    v
}

fn vote_key() -> (r: Vec<u8>)
    ensures
        r@ == vote_program_id(),
{
    let mut v: Vec<u8> = Vec::new();
    v.push(7u8);
    v.push(97u8);
    v.push(72u8);
    v.push(29u8);
    v.push(53u8);
    v.push(116u8);
    v.push(116u8);
    v.push(187u8);
    v.push(124u8);
    v.push(77u8);
    v.push(118u8);
    v.push(36u8);
    v.push(235u8);
    v.push(211u8);
    v.push(189u8);
    v.push(179u8);
    v.push(216u8);
    v.push(53u8);
    v.push(94u8);
    v.push(115u8);
    v.push(209u8);
    v.push(16u8);
    v.push(67u8);
    v.push(252u8);
    v.push(13u8);
    v.push(163u8);
    v.push(83u8);
    v.push(128u8);
    v.push(0u8);
    v.push(0u8);
    v.push(0u8);
    v.push(0u8);
    assert(v@ =~= vote_program_id());
    v
}

/// Whether a key is the compute-budget program id.
pub fn is_compute_budget_key(k: &Pubkey) -> (r: bool)
    ensures
        r == (k@ == compute_budget_program_id()),
{
    let cb = compute_budget_key();
    bytes_eq(&k.bytes, &cb)
}

/// Whether a key is the vote program id.
pub fn is_vote_program_key(k: &Pubkey) -> (r: bool)
    ensures
        r == (k@ == vote_program_id()),
{
    let v = vote_key();
    bytes_eq(&k.bytes, &v)
}

} // verus!
