use vstd::prelude::*;
use crate::keys::Pubkey;
use crate::shortvec::push_shortvec;
use crate::shortvec::read_shortvec;
use crate::shortvec::spec_shortvec;

verus! {

/// The three signature-count fields of a message header. On the wire they
/// arrive as wider integers; a count above 255 is a wire-format violation
/// and the whole transaction envelope is dropped rather than wrapped.
#[derive(Debug, Clone, Copy, PartialEq, Eq, Structural)]
pub struct MsgHeader {
    pub num_required_signatures: u8,
    pub num_readonly_signed_accounts: u8,
    pub num_readonly_unsigned_accounts: u8,
}

/// One instruction of the canonical message: program index, account index
/// list and opaque data, all preserved verbatim from the wire.
#[derive(Debug, Clone, PartialEq, Eq)]
pub struct CompiledIx {
    pub program_id_index: u8,
    pub accounts: Vec<u8>,
    pub data: Vec<u8>,
}

#[verifier::ext_equal]
pub struct CompiledIxView {
    pub program_id_index: u8,
    pub accounts: Seq<u8>,
    pub data: Seq<u8>,
}

impl View for CompiledIx {
    type V = CompiledIxView;

    open spec fn view(&self) -> CompiledIxView {
        CompiledIxView {
            program_id_index: self.program_id_index,
            accounts: self.accounts@,
            data: self.data@,
        }
    }
}

/// One address-lookup-table reference: the table's key plus the writable and
/// readonly index lists, in message order. The indices are not resolved.
#[derive(Debug, Clone, PartialEq, Eq)]
pub struct AddressTableLookup {
    pub account_key: Pubkey,
    pub writable_indexes: Vec<u8>,
    pub readonly_indexes: Vec<u8>,
}

#[verifier::ext_equal]
pub struct AddressTableLookupView {
    pub account_key: Seq<u8>,
    pub writable_indexes: Seq<u8>,
    pub readonly_indexes: Seq<u8>,
}

impl View for AddressTableLookup {
    type V = AddressTableLookupView;

    open spec fn view(&self) -> AddressTableLookupView {
        AddressTableLookupView {
            account_key: self.account_key@,
            writable_indexes: self.writable_indexes@,
            readonly_indexes: self.readonly_indexes@,
        }
    }
}

/// The reconstructed versioned message, always in the versioned (v0) form.
#[derive(Debug, Clone, PartialEq, Eq)]
pub struct VersionedMsg {
    pub header: MsgHeader,
    pub account_keys: Vec<Pubkey>,
    pub recent_blockhash: Vec<u8>,
    pub instructions: Vec<CompiledIx>,
    pub address_table_lookups: Vec<AddressTableLookup>,
}

#[verifier::ext_equal]
pub struct MsgView {
    pub header: MsgHeader,
    pub account_keys: Seq<Seq<u8>>,
    pub recent_blockhash: Seq<u8>,
    pub instructions: Seq<CompiledIxView>,
    pub address_table_lookups: Seq<AddressTableLookupView>,
}

impl View for VersionedMsg {
    type V = MsgView;

    open spec fn view(&self) -> MsgView {
        MsgView {
            header: self.header,
            account_keys: self.account_keys@.map_values(|k: Pubkey| k@),
            recent_blockhash: self.recent_blockhash@,
            instructions: self.instructions@.map_values(|ix: CompiledIx| ix@),
            address_table_lookups: self.address_table_lookups@.map_values(
                |l: AddressTableLookup| l@,
            ),
        }
    }
}

/// Serializability: every key has 32 bytes and every list fits a compact
/// u16 length prefix.
pub open spec fn wf_msg(m: MsgView) -> bool {
    &&& m.account_keys.len() <= 0xFFFF
    &&& forall|i: int|
        0 <= i < m.account_keys.len() ==> (#[trigger] m.account_keys[i]).len() == 32
    &&& m.recent_blockhash.len() == 32
    &&& m.instructions.len() <= 0xFFFF
    &&& forall|i: int|
        0 <= i < m.instructions.len() ==> (#[trigger] m.instructions[i]).accounts.len() <= 0xFFFF
            && m.instructions[i].data.len() <= 0xFFFF
    &&& m.address_table_lookups.len() <= 0xFFFF
    &&& forall|i: int|
        0 <= i < m.address_table_lookups.len() ==> (
        #[trigger] m.address_table_lookups[i]).account_key.len() == 32
            && m.address_table_lookups[i].writable_indexes.len() <= 0xFFFF
            && m.address_table_lookups[i].readonly_indexes.len() <= 0xFFFF
}

impl VersionedMsg {
    pub open spec fn wf(&self) -> bool {
        wf_msg(self@)
    }
}

pub open spec fn concat_upto(parts: Seq<Seq<u8>>, upto: int) -> Seq<u8>
    decreases upto,
{
    if upto <= 0 {
        Seq::empty()
    } else {
        concat_upto(parts, upto - 1) + parts[upto - 1]
    }
}

pub open spec fn concat_all(parts: Seq<Seq<u8>>) -> Seq<u8> {
    concat_upto(parts, parts.len() as int)
}

pub open spec fn spec_ser_ix(ix: CompiledIxView) -> Seq<u8> {
    seq![ix.program_id_index] + spec_shortvec(ix.accounts.len() as u16) + ix.accounts
        + spec_shortvec(ix.data.len() as u16) + ix.data
}

pub open spec fn spec_ser_lookup(l: AddressTableLookupView) -> Seq<u8> {
    l.account_key + spec_shortvec(l.writable_indexes.len() as u16) + l.writable_indexes
        + spec_shortvec(l.readonly_indexes.len() as u16) + l.readonly_indexes
}

/// The canonical byte form of a message: the version prefix byte, the three
/// header counts, then keys, recent blockhash, instructions and lookups,
/// each list preceded by its compact length.
pub open spec fn spec_ser_msg(m: MsgView) -> Seq<u8> {
    seq![
        0x80u8,
        m.header.num_required_signatures,
        m.header.num_readonly_signed_accounts,
        m.header.num_readonly_unsigned_accounts,
    ] + spec_shortvec(m.account_keys.len() as u16) + concat_all(m.account_keys)
        + m.recent_blockhash + spec_shortvec(m.instructions.len() as u16) + concat_all(
        m.instructions.map_values(|ix: CompiledIxView| spec_ser_ix(ix)),
    ) + spec_shortvec(m.address_table_lookups.len() as u16) + concat_all(
        m.address_table_lookups.map_values(|l: AddressTableLookupView| spec_ser_lookup(l)),
    )
}

/// Appends a copy of `b`.
pub fn push_bytes(out: &mut Vec<u8>, b: &Vec<u8>)
    ensures
        final(out)@ == old(out)@ + b@,
{
    let mut i: usize = 0;
    while i < b.len()
        invariant
            i <= b.len(),
            out@ == old(out)@ + b@.subrange(0, i as int),
        decreases b.len() - i,
    {
        out.push(b[i]);
        assert(out@ =~= old(out)@ + b@.subrange(0, i + 1 as int));
        i = i + 1;
    }
    assert(out@ =~= old(out)@ + b@);
}

proof fn lemma_concat_upto_agree(a: Seq<Seq<u8>>, b: Seq<Seq<u8>>, n: int)
    requires
        0 <= n <= a.len(),
        n <= b.len(),
        forall|i: int| 0 <= i < n ==> a[i] == b[i],
    ensures
        concat_upto(a, n) == concat_upto(b, n),
    decreases n,
{
    if n > 0 {
        lemma_concat_upto_agree(a, b, n - 1);
    }
}

fn read_bytes(d: &Vec<u8>, pos: usize, n: usize) -> (r: Option<Vec<u8>>)
    requires
        pos <= d@.len(),
    ensures
        match r {
            Some(b) => pos + n <= d@.len() && b@ == d@.subrange(pos as int, pos as int + n as int),
            None => pos + n > d@.len(),
        },
{
    let dl = d.len();
    if n > dl - pos {
        return Option::None;
    }
    let mut out: Vec<u8> = Vec::new();
    let mut i: usize = 0;
    while i < n
        invariant
            i <= n,
            dl == d@.len(),
            pos + n <= dl,
            out@ == d@.subrange(pos as int, pos as int + i as int),
        decreases n - i,
    {
        out.push(d[pos + i]);
        assert(out@ =~= d@.subrange(pos as int, pos as int + (i + 1) as int));
        i = i + 1;
    }
    Option::Some(out)
}

/// Re-serializes the reconstructed message into its canonical byte form.
pub fn serialize_message(m: &VersionedMsg) -> (r: Vec<u8>)
    requires
        m.wf(),
    ensures
        r@ == spec_ser_msg(m@),
{
    let ghost keysv: Seq<Seq<u8>> = m@.account_keys;
    let ghost ixv: Seq<Seq<u8>> = m@.instructions.map_values(|ix: CompiledIxView| spec_ser_ix(ix));
    let ghost lkv: Seq<Seq<u8>> = m@.address_table_lookups.map_values(
        |l: AddressTableLookupView| spec_ser_lookup(l),
    );

    let mut out: Vec<u8> = Vec::new();
    out.push(0x80u8);
    out.push(m.header.num_required_signatures);
    out.push(m.header.num_readonly_signed_accounts);
    out.push(m.header.num_readonly_unsigned_accounts);
    let ghost head: Seq<u8> = seq![
        0x80u8,
        m@.header.num_required_signatures,
        m@.header.num_readonly_signed_accounts,
        m@.header.num_readonly_unsigned_accounts,
    ];
    assert(out@ =~= head);

    push_shortvec(&mut out, m.account_keys.len() as u16);
    let ghost head2: Seq<u8> = head + spec_shortvec(keysv.len() as u16);
    let mut i: usize = 0;
    while i < m.account_keys.len()
        invariant
            i <= m.account_keys@.len(),
            keysv.len() == m.account_keys@.len(),
            keysv == m@.account_keys,
            out@ == head2 + concat_upto(keysv, i as int),
        decreases m.account_keys@.len() - i,
    {
        push_bytes(&mut out, &m.account_keys[i].bytes);
        assert(out@ =~= head2 + concat_upto(keysv, i + 1 as int));
        i = i + 1;
    }
    let ghost head3: Seq<u8> = head2 + concat_all(keysv);
    assert(out@ == head3);

    push_bytes(&mut out, &m.recent_blockhash);
    push_shortvec(&mut out, m.instructions.len() as u16);
    let ghost head4: Seq<u8> = head3 + m@.recent_blockhash + spec_shortvec(ixv.len() as u16);
    assert(out@ =~= head4);

    let mut i: usize = 0;
    while i < m.instructions.len()
        invariant
            i <= m.instructions@.len(),
            ixv.len() == m.instructions@.len(),
            ixv == m@.instructions.map_values(|ix: CompiledIxView| spec_ser_ix(ix)),
            m@.instructions == m.instructions@.map_values(|ix: CompiledIx| ix@),
            wf_msg(m@),
            out@ == head4 + concat_upto(ixv, i as int),
        decreases m.instructions@.len() - i,
    {
        let ix = &m.instructions[i];
        assert(m@.instructions[i as int] == ix@);
        assert(ixv[i as int] == spec_ser_ix(ix@));
        out.push(ix.program_id_index);
        push_shortvec(&mut out, ix.accounts.len() as u16);
        push_bytes(&mut out, &ix.accounts);
        push_shortvec(&mut out, ix.data.len() as u16);
        push_bytes(&mut out, &ix.data);
        assert(out@ =~= head4 + concat_upto(ixv, i as int) + spec_ser_ix(ix@));
        assert(out@ =~= head4 + concat_upto(ixv, i + 1 as int));
        i = i + 1;
    }
    let ghost head5: Seq<u8> = head4 + concat_all(ixv);
    assert(out@ == head5);

    push_shortvec(&mut out, m.address_table_lookups.len() as u16);
    let ghost head6: Seq<u8> = head5 + spec_shortvec(lkv.len() as u16);
    let mut i: usize = 0;
    while i < m.address_table_lookups.len()
        invariant
            i <= m.address_table_lookups@.len(),
            lkv.len() == m.address_table_lookups@.len(),
            lkv == m@.address_table_lookups.map_values(
                |l: AddressTableLookupView| spec_ser_lookup(l),
            ),
            m@.address_table_lookups == m.address_table_lookups@.map_values(
                |l: AddressTableLookup| l@,
            ),
            wf_msg(m@),
            out@ == head6 + concat_upto(lkv, i as int),
        decreases m.address_table_lookups@.len() - i,
    {
        let l = &m.address_table_lookups[i];
        assert(m@.address_table_lookups[i as int] == l@);
        assert(lkv[i as int] == spec_ser_lookup(l@));
        push_bytes(&mut out, &l.account_key.bytes);
        push_shortvec(&mut out, l.writable_indexes.len() as u16);
        push_bytes(&mut out, &l.writable_indexes);
        push_shortvec(&mut out, l.readonly_indexes.len() as u16);
        push_bytes(&mut out, &l.readonly_indexes);
        assert(out@ =~= head6 + concat_upto(lkv, i as int) + spec_ser_lookup(l@));
        assert(out@ =~= head6 + concat_upto(lkv, i + 1 as int));
        i = i + 1;
    }
    assert(out@ =~= spec_ser_msg(m@));
    out
}

proof fn lemma_fixed_prefix(c1: Seq<u8>, c2: Seq<u8>, s1: Seq<u8>, s2: Seq<u8>)
    requires
        c1.len() == c2.len(),
        c1 + s1 == c2 + s2,
    ensures
        c1 == c2,
        s1 == s2,
{
    assert((c1 + s1).len() == c1.len() + s1.len());
    assert((c2 + s2).len() == c2.len() + s2.len());
    assert forall|i: int| 0 <= i < c1.len() implies c1[i] == c2[i] by {
        assert((c1 + s1)[i] == c1[i]);
        assert((c2 + s2)[i] == c2[i]);
    }
    assert forall|i: int| 0 <= i < s1.len() implies s1[i] == s2[i] by {
        assert((c1 + s1)[c1.len() + i] == s1[i]);
        assert((c2 + s2)[c2.len() + i] == s2[i]);
    }
    assert(c1 =~= c2);
    assert(s1 =~= s2);
}

pub open spec fn concat_from(parts: Seq<Seq<u8>>, i: int) -> Seq<u8>
    decreases parts.len() - i,
{
    if i < 0 || i >= parts.len() {
        Seq::empty()
    } else {
        parts[i] + concat_from(parts, i + 1)
    }
}

proof fn lemma_concat_from_all(parts: Seq<Seq<u8>>, i: int)
    requires
        0 <= i <= parts.len(),
    ensures
        concat_upto(parts, parts.len() as int) == concat_upto(parts, i) + concat_from(parts, i),
    decreases parts.len() - i,
{
    if i == parts.len() {
        assert(concat_upto(parts, i) + concat_from(parts, i) =~= concat_upto(parts, i));
    } else {
        lemma_concat_from_all(parts, i + 1);
        assert((concat_upto(parts, i) + parts[i]) + concat_from(parts, i + 1) =~= concat_upto(
            parts,
            i,
        ) + (parts[i] + concat_from(parts, i + 1)));
    }
}

proof fn lemma_chunks_prefix(a: Seq<Seq<u8>>, b: Seq<Seq<u8>>, i: int, s1: Seq<u8>, s2: Seq<u8>)
    requires
        a.len() == b.len(),
        0 <= i <= a.len(),
        forall|j: int| 0 <= j < a.len() ==> (#[trigger] a[j]).len() == 32,
        forall|j: int| 0 <= j < b.len() ==> (#[trigger] b[j]).len() == 32,
        concat_from(a, i) + s1 == concat_from(b, i) + s2,
    ensures
        forall|j: int| i <= j < a.len() ==> a[j] == b[j],
        s1 == s2,
    decreases a.len() - i,
{
    if i >= a.len() {
        lemma_fixed_prefix(concat_from(a, i), concat_from(b, i), s1, s2);
    } else {
        assert((a[i] + concat_from(a, i + 1)) + s1 =~= a[i] + (concat_from(a, i + 1) + s1));
        assert((b[i] + concat_from(b, i + 1)) + s2 =~= b[i] + (concat_from(b, i + 1) + s2));
        lemma_fixed_prefix(a[i], b[i], concat_from(a, i + 1) + s1, concat_from(b, i + 1) + s2);
        lemma_chunks_prefix(a, b, i + 1, s1, s2);
    }
}

#[verifier::rlimit(100)]
proof fn lemma_ser_ix_prefix(x: CompiledIxView, y: CompiledIxView, s1: Seq<u8>, s2: Seq<u8>)
    requires
        x.accounts.len() <= 0xFFFF,
        x.data.len() <= 0xFFFF,
        y.accounts.len() <= 0xFFFF,
        y.data.len() <= 0xFFFF,
        spec_ser_ix(x) + s1 == spec_ser_ix(y) + s2,
    ensures
        x == y,
        s1 == s2,
{
    let t1 = spec_shortvec(x.data.len() as u16) + (x.data + s1);
    let t2 = spec_shortvec(y.data.len() as u16) + (y.data + s2);
    let u1 = spec_shortvec(x.accounts.len() as u16) + (x.accounts + t1);
    let u2 = spec_shortvec(y.accounts.len() as u16) + (y.accounts + t2);
    assert(spec_ser_ix(x) + s1 =~= seq![x.program_id_index] + u1);
    assert(spec_ser_ix(y) + s2 =~= seq![y.program_id_index] + u2);
    lemma_fixed_prefix(seq![x.program_id_index], seq![y.program_id_index], u1, u2);
    assert(seq![x.program_id_index][0] == x.program_id_index);
    assert(seq![y.program_id_index][0] == y.program_id_index);
    assert(x.program_id_index == y.program_id_index);
    crate::shortvec::lemma_shortvec_prefix(
        x.accounts.len() as u16,
        y.accounts.len() as u16,
        x.accounts + t1,
        y.accounts + t2,
    );
    assert(x.accounts.len() == y.accounts.len());
    lemma_fixed_prefix(x.accounts, y.accounts, t1, t2);
    crate::shortvec::lemma_shortvec_prefix(
        x.data.len() as u16,
        y.data.len() as u16,
        x.data + s1,
        y.data + s2,
    );
    assert(x.data.len() == y.data.len());
    lemma_fixed_prefix(x.data, y.data, s1, s2);
    assert(x =~= y);
}

proof fn lemma_ix_seq_prefix(
    a: Seq<CompiledIxView>,
    b: Seq<CompiledIxView>,
    i: int,
    s1: Seq<u8>,
    s2: Seq<u8>,
)
    requires
        a.len() == b.len(),
        0 <= i <= a.len(),
        forall|j: int|
            0 <= j < a.len() ==> (#[trigger] a[j]).accounts.len() <= 0xFFFF && a[j].data.len()
                <= 0xFFFF,
        forall|j: int|
            0 <= j < b.len() ==> (#[trigger] b[j]).accounts.len() <= 0xFFFF && b[j].data.len()
                <= 0xFFFF,
        concat_from(a.map_values(|ix: CompiledIxView| spec_ser_ix(ix)), i) + s1 == concat_from(
            b.map_values(|ix: CompiledIxView| spec_ser_ix(ix)),
            i,
        ) + s2,
    ensures
        forall|j: int| i <= j < a.len() ==> a[j] == b[j],
        s1 == s2,
    decreases a.len() - i,
{
    let pa = a.map_values(|ix: CompiledIxView| spec_ser_ix(ix));
    let pb = b.map_values(|ix: CompiledIxView| spec_ser_ix(ix));
    if i >= a.len() {
        lemma_fixed_prefix(concat_from(pa, i), concat_from(pb, i), s1, s2);
    } else {
        assert(pa[i] == spec_ser_ix(a[i]));
        assert(pb[i] == spec_ser_ix(b[i]));
        assert((pa[i] + concat_from(pa, i + 1)) + s1 =~= spec_ser_ix(a[i]) + (concat_from(
            pa,
            i + 1,
        ) + s1));
        assert((pb[i] + concat_from(pb, i + 1)) + s2 =~= spec_ser_ix(b[i]) + (concat_from(
            pb,
            i + 1,
        ) + s2));
        lemma_ser_ix_prefix(a[i], b[i], concat_from(pa, i + 1) + s1, concat_from(pb, i + 1) + s2);
        lemma_ix_seq_prefix(a, b, i + 1, s1, s2);
    }
}

#[verifier::rlimit(100)]
proof fn lemma_ser_lookup_prefix(
    x: AddressTableLookupView,
    y: AddressTableLookupView,
    s1: Seq<u8>,
    s2: Seq<u8>,
)
    requires
        x.account_key.len() == 32,
        x.writable_indexes.len() <= 0xFFFF,
        x.readonly_indexes.len() <= 0xFFFF,
        y.account_key.len() == 32,
        y.writable_indexes.len() <= 0xFFFF,
        y.readonly_indexes.len() <= 0xFFFF,
        spec_ser_lookup(x) + s1 == spec_ser_lookup(y) + s2,
    ensures
        x == y,
        s1 == s2,
{
    let t1 = spec_shortvec(x.readonly_indexes.len() as u16) + (x.readonly_indexes + s1);
    let t2 = spec_shortvec(y.readonly_indexes.len() as u16) + (y.readonly_indexes + s2);
    let u1 = spec_shortvec(x.writable_indexes.len() as u16) + (x.writable_indexes + t1);
    let u2 = spec_shortvec(y.writable_indexes.len() as u16) + (y.writable_indexes + t2);
    assert(spec_ser_lookup(x) + s1 =~= x.account_key + u1);
    assert(spec_ser_lookup(y) + s2 =~= y.account_key + u2);
    lemma_fixed_prefix(x.account_key, y.account_key, u1, u2);
    crate::shortvec::lemma_shortvec_prefix(
        x.writable_indexes.len() as u16,
        y.writable_indexes.len() as u16,
        x.writable_indexes + t1,
        y.writable_indexes + t2,
    );
    assert(x.writable_indexes.len() == y.writable_indexes.len());
    lemma_fixed_prefix(x.writable_indexes, y.writable_indexes, t1, t2);
    crate::shortvec::lemma_shortvec_prefix(
        x.readonly_indexes.len() as u16,
        y.readonly_indexes.len() as u16,
        x.readonly_indexes + s1,
        y.readonly_indexes + s2,
    );
    assert(x.readonly_indexes.len() == y.readonly_indexes.len());
    lemma_fixed_prefix(x.readonly_indexes, y.readonly_indexes, s1, s2);
    assert(x =~= y);
}

proof fn lemma_lookup_seq_prefix(
    a: Seq<AddressTableLookupView>,
    b: Seq<AddressTableLookupView>,
    i: int,
    s1: Seq<u8>,
    s2: Seq<u8>,
)
    requires
        a.len() == b.len(),
        0 <= i <= a.len(),
        forall|j: int|
            0 <= j < a.len() ==> (#[trigger] a[j]).account_key.len() == 32
                && a[j].writable_indexes.len() <= 0xFFFF && a[j].readonly_indexes.len() <= 0xFFFF,
        forall|j: int|
            0 <= j < b.len() ==> (#[trigger] b[j]).account_key.len() == 32
                && b[j].writable_indexes.len() <= 0xFFFF && b[j].readonly_indexes.len() <= 0xFFFF,
        concat_from(a.map_values(|l: AddressTableLookupView| spec_ser_lookup(l)), i) + s1
            == concat_from(b.map_values(|l: AddressTableLookupView| spec_ser_lookup(l)), i) + s2,
    ensures
        forall|j: int| i <= j < a.len() ==> a[j] == b[j],
        s1 == s2,
    decreases a.len() - i,
{
    let pa = a.map_values(|l: AddressTableLookupView| spec_ser_lookup(l));
    let pb = b.map_values(|l: AddressTableLookupView| spec_ser_lookup(l));
    if i >= a.len() {
        lemma_fixed_prefix(concat_from(pa, i), concat_from(pb, i), s1, s2);
    } else {
        assert(pa[i] == spec_ser_lookup(a[i]));
        assert(pb[i] == spec_ser_lookup(b[i]));
        assert((pa[i] + concat_from(pa, i + 1)) + s1 =~= spec_ser_lookup(a[i]) + (concat_from(
            pa,
            i + 1,
        ) + s1));
        assert((pb[i] + concat_from(pb, i + 1)) + s2 =~= spec_ser_lookup(b[i]) + (concat_from(
            pb,
            i + 1,
        ) + s2));
        lemma_ser_lookup_prefix(
            a[i],
            b[i],
            concat_from(pa, i + 1) + s1,
            concat_from(pb, i + 1) + s2,
        );
        lemma_lookup_seq_prefix(a, b, i + 1, s1, s2);
    }
}

/// The canonical byte form determines the message: two serializable
/// messages with the same serialization are the same message. Together
/// with the contracts of `serialize_message` (the bytes are exactly the
/// canonical form of the input) and `deserialize_message` (any decoded
/// message re-serializes to exactly the given bytes), this closes the
/// round trip: decoding a re-serialized message can only yield a message
/// equal to the original.
#[verifier::rlimit(100)]
pub proof fn lemma_ser_msg_injective(a: MsgView, b: MsgView)
    requires
        wf_msg(a),
        wf_msg(b),
        spec_ser_msg(a) == spec_ser_msg(b),
    ensures
        a.header == b.header,
        a.account_keys == b.account_keys,
        a.recent_blockhash == b.recent_blockhash,
        a.instructions == b.instructions,
        a.address_table_lookups == b.address_table_lookups,
{
    let e: Seq<u8> = Seq::empty();
    let h4a: Seq<u8> = seq![
        0x80u8,
        a.header.num_required_signatures,
        a.header.num_readonly_signed_accounts,
        a.header.num_readonly_unsigned_accounts,
    ];
    let h4b: Seq<u8> = seq![
        0x80u8,
        b.header.num_required_signatures,
        b.header.num_readonly_signed_accounts,
        b.header.num_readonly_unsigned_accounts,
    ];
    let ixa = a.instructions.map_values(|ix: CompiledIxView| spec_ser_ix(ix));
    let ixb = b.instructions.map_values(|ix: CompiledIxView| spec_ser_ix(ix));
    let lka = a.address_table_lookups.map_values(|l: AddressTableLookupView| spec_ser_lookup(l));
    let lkb = b.address_table_lookups.map_values(|l: AddressTableLookupView| spec_ser_lookup(l));
    lemma_concat_from_all(a.account_keys, 0);
    lemma_concat_from_all(b.account_keys, 0);
    lemma_concat_from_all(ixa, 0);
    lemma_concat_from_all(ixb, 0);
    lemma_concat_from_all(lka, 0);
    lemma_concat_from_all(lkb, 0);
    assert(concat_all(a.account_keys) =~= concat_from(a.account_keys, 0));
    assert(concat_all(b.account_keys) =~= concat_from(b.account_keys, 0));
    assert(concat_all(ixa) =~= concat_from(ixa, 0));
    assert(concat_all(ixb) =~= concat_from(ixb, 0));
    assert(concat_all(lka) =~= concat_from(lka, 0));
    assert(concat_all(lkb) =~= concat_from(lkb, 0));

    let sv1a = spec_shortvec(a.account_keys.len() as u16);
    let ka = concat_from(a.account_keys, 0);
    let sv2a = spec_shortvec(a.instructions.len() as u16);
    let ixca = concat_from(ixa, 0);
    let sv3a = spec_shortvec(a.address_table_lookups.len() as u16);
    let lkca = concat_from(lka, 0);
    let sv1b = spec_shortvec(b.account_keys.len() as u16);
    let kb = concat_from(b.account_keys, 0);
    let sv2b = spec_shortvec(b.instructions.len() as u16);
    let ixcb = concat_from(ixb, 0);
    let sv3b = spec_shortvec(b.address_table_lookups.len() as u16);
    let lkcb = concat_from(lkb, 0);

    let q1a = h4a + sv1a;
    let q2a = q1a + ka;
    let q3a = q2a + a.recent_blockhash;
    let q4a = q3a + sv2a;
    let q5a = q4a + ixca;
    let q6a = q5a + sv3a;
    let q7a = q6a + lkca;
    assert(spec_ser_msg(a) =~= q7a);
    let x6a = sv3a + lkca;
    let x5a = ixca + x6a;
    let x4a = sv2a + x5a;
    let x3a = a.recent_blockhash + x4a;
    let x2a = ka + x3a;
    let x1a = sv1a + x2a;
    assert(q7a =~= q5a + x6a);
    assert(q5a + x6a =~= q4a + x5a);
    assert(q4a + x5a =~= q3a + x4a);
    assert(q3a + x4a =~= q2a + x3a);
    assert(q2a + x3a =~= q1a + x2a);
    assert(q1a + x2a =~= h4a + x1a);

    let q1b = h4b + sv1b;
    let q2b = q1b + kb;
    let q3b = q2b + b.recent_blockhash;
    let q4b = q3b + sv2b;
    let q5b = q4b + ixcb;
    let q6b = q5b + sv3b;
    let q7b = q6b + lkcb;
    assert(spec_ser_msg(b) =~= q7b);
    let x6b = sv3b + lkcb;
    let x5b = ixcb + x6b;
    let x4b = sv2b + x5b;
    let x3b = b.recent_blockhash + x4b;
    let x2b = kb + x3b;
    let x1b = sv1b + x2b;
    assert(q7b =~= q5b + x6b);
    assert(q5b + x6b =~= q4b + x5b);
    assert(q4b + x5b =~= q3b + x4b);
    assert(q3b + x4b =~= q2b + x3b);
    assert(q2b + x3b =~= q1b + x2b);
    assert(q1b + x2b =~= h4b + x1b);

    assert(h4a + x1a == h4b + x1b);
    lemma_fixed_prefix(h4a, h4b, x1a, x1b);
    assert(h4a[1] == h4b[1] && h4a[2] == h4b[2] && h4a[3] == h4b[3]);
    crate::shortvec::lemma_shortvec_prefix(
        a.account_keys.len() as u16,
        b.account_keys.len() as u16,
        x2a,
        x2b,
    );
    assert(a.account_keys.len() == b.account_keys.len());
    lemma_chunks_prefix(a.account_keys, b.account_keys, 0, x3a, x3b);
    lemma_fixed_prefix(a.recent_blockhash, b.recent_blockhash, x4a, x4b);
    crate::shortvec::lemma_shortvec_prefix(
        a.instructions.len() as u16,
        b.instructions.len() as u16,
        x5a,
        x5b,
    );
    assert(a.instructions.len() == b.instructions.len());
    lemma_ix_seq_prefix(a.instructions, b.instructions, 0, x6a, x6b);
    crate::shortvec::lemma_shortvec_prefix(
        a.address_table_lookups.len() as u16,
        b.address_table_lookups.len() as u16,
        lkca,
        lkcb,
    );
    assert(a.address_table_lookups.len() == b.address_table_lookups.len());
    assert(lkca + e =~= lkca);
    assert(lkcb + e =~= lkcb);
    lemma_lookup_seq_prefix(a.address_table_lookups, b.address_table_lookups, 0, e, e);

    assert(a.header == b.header);
    assert(a.account_keys =~= b.account_keys);
    assert(a.instructions =~= b.instructions);
    assert(a.address_table_lookups =~= b.address_table_lookups);
}

proof fn lemma_peel(d: Seq<u8>, pos: int, c: Seq<u8>, rest: Seq<u8>)
    requires
        0 <= pos <= d.len(),
        d.subrange(pos, d.len() as int) == c + rest,
    ensures
        pos + c.len() + rest.len() == d.len(),
        d.subrange(pos, pos + c.len()) == c,
        d.subrange(pos + c.len(), d.len() as int) == rest,
{
    assert((c + rest).len() == c.len() + rest.len());
    assert(d.subrange(pos, d.len() as int).len() == d.len() - pos);
    assert forall|i: int| 0 <= i < c.len() implies d.subrange(pos, pos + c.len())[i] == c[i] by {
        assert(d.subrange(pos, d.len() as int)[i] == d[pos + i]);
        assert((c + rest)[i] == c[i]);
        assert(d.subrange(pos, pos + c.len())[i] == d[pos + i]);
    }
    assert(d.subrange(pos, pos + c.len()) =~= c);
    assert forall|i: int|
        0 <= i < rest.len() implies d.subrange(pos + c.len(), d.len() as int)[i] == rest[i] by {
        assert(d.subrange(pos, d.len() as int)[c.len() + i] == d[pos + c.len() + i]);
        assert((c + rest)[c.len() + i] == rest[i]);
        assert(d.subrange(pos + c.len(), d.len() as int)[i] == d[pos + c.len() + i]);
    }
    assert(d.subrange(pos + c.len(), d.len() as int) =~= rest);
}

proof fn lemma_split(d: Seq<u8>, pos: int, mid: int)
    requires
        0 <= pos <= mid <= d.len(),
    ensures
        d.subrange(pos, d.len() as int) == d.subrange(pos, mid) + d.subrange(
            mid,
            d.len() as int,
        ),
{
    assert(d.subrange(pos, d.len() as int) =~= d.subrange(pos, mid) + d.subrange(
        mid,
        d.len() as int,
    ));
}

proof fn lemma_ser_msg_unfold(w: MsgView)
    ensures
        spec_ser_msg(w) == seq![
            0x80u8,
            w.header.num_required_signatures,
            w.header.num_readonly_signed_accounts,
            w.header.num_readonly_unsigned_accounts,
        ] + (spec_shortvec(w.account_keys.len() as u16) + (concat_from(w.account_keys, 0) + (
        w.recent_blockhash + (spec_shortvec(w.instructions.len() as u16) + (concat_from(
            w.instructions.map_values(|ix: CompiledIxView| spec_ser_ix(ix)),
            0,
        ) + (spec_shortvec(w.address_table_lookups.len() as u16) + concat_from(
            w.address_table_lookups.map_values(|l: AddressTableLookupView| spec_ser_lookup(l)),
            0,
        ))))))),
{
    let h4 = seq![
        0x80u8,
        w.header.num_required_signatures,
        w.header.num_readonly_signed_accounts,
        w.header.num_readonly_unsigned_accounts,
    ];
    let wix = w.instructions.map_values(|ix: CompiledIxView| spec_ser_ix(ix));
    let wlk = w.address_table_lookups.map_values(|l: AddressTableLookupView| spec_ser_lookup(l));
    lemma_concat_from_all(w.account_keys, 0);
    lemma_concat_from_all(wix, 0);
    lemma_concat_from_all(wlk, 0);
    assert(concat_all(w.account_keys) =~= concat_from(w.account_keys, 0));
    assert(concat_all(wix) =~= concat_from(wix, 0));
    assert(concat_all(wlk) =~= concat_from(wlk, 0));
    let y6 = spec_shortvec(w.address_table_lookups.len() as u16) + concat_from(wlk, 0);
    let y5 = concat_from(wix, 0) + y6;
    let y4 = spec_shortvec(w.instructions.len() as u16) + y5;
    let y3 = w.recent_blockhash + y4;
    let y2 = concat_from(w.account_keys, 0) + y3;
    let y1 = spec_shortvec(w.account_keys.len() as u16) + y2;
    let q1 = h4 + spec_shortvec(w.account_keys.len() as u16);
    let q2 = q1 + concat_from(w.account_keys, 0);
    let q3 = q2 + w.recent_blockhash;
    let q4 = q3 + spec_shortvec(w.instructions.len() as u16);
    let q5 = q4 + concat_from(wix, 0);
    let q6 = q5 + spec_shortvec(w.address_table_lookups.len() as u16);
    let q7 = q6 + concat_from(wlk, 0);
    assert(spec_ser_msg(w) =~= q7);
    assert(q7 =~= q5 + y6);
    assert(q5 + y6 =~= q4 + y5);
    assert(q4 + y5 =~= q3 + y4);
    assert(q3 + y4 =~= q2 + y3);
    assert(q2 + y3 =~= q1 + y2);
    assert(q1 + y2 =~= h4 + y1);
}

proof fn lemma_unfold_ix(wi: CompiledIxView, rest0: Seq<u8>)
    ensures
        spec_ser_ix(wi) + rest0 == seq![wi.program_id_index] + (spec_shortvec(
            wi.accounts.len() as u16,
        ) + (wi.accounts + (spec_shortvec(wi.data.len() as u16) + (wi.data + rest0)))),
{
    assert(spec_ser_ix(wi) + rest0 =~= seq![wi.program_id_index] + (spec_shortvec(
        wi.accounts.len() as u16,
    ) + (wi.accounts + (spec_shortvec(wi.data.len() as u16) + (wi.data + rest0)))));
}

proof fn lemma_unfold_lookup(wl: AddressTableLookupView, rest0: Seq<u8>)
    ensures
        spec_ser_lookup(wl) + rest0 == wl.account_key + (spec_shortvec(
            wl.writable_indexes.len() as u16,
        ) + (wl.writable_indexes + (spec_shortvec(wl.readonly_indexes.len() as u16) + (
        wl.readonly_indexes + rest0)))),
{
    assert(spec_ser_lookup(wl) + rest0 =~= wl.account_key + (spec_shortvec(
        wl.writable_indexes.len() as u16,
    ) + (wl.writable_indexes + (spec_shortvec(wl.readonly_indexes.len() as u16) + (
    wl.readonly_indexes + rest0)))));
}

/// Decodes the canonical byte form back into a structured message, totally:
/// any successful decode is faithful (re-serializing the result reproduces
/// the input bytes exactly), and any input that is the canonical form of
/// some serializable message is decoded. Trailing bytes, a wrong version
/// prefix and non-canonical length prefixes are all rejected.
#[verifier::rlimit(100)]
pub fn deserialize_message(d: &Vec<u8>) -> (r: Option<VersionedMsg>)
    ensures
        match r {
            Some(m) => m.wf() && spec_ser_msg(m@) == d@,
            None => true,
        },
        (exists|m: MsgView| wf_msg(m) && spec_ser_msg(m) == d@) ==> r is Some,
{
    let ghost has_w = exists|m: MsgView| wf_msg(m) && spec_ser_msg(m) == d@;
    let ghost w: MsgView = if has_w {
        choose|m: MsgView| wf_msg(m) && spec_ser_msg(m) == d@
    } else {
        arbitrary()
    };
    let ghost wix = w.instructions.map_values(|ix: CompiledIxView| spec_ser_ix(ix));
    let ghost wlk = w.address_table_lookups.map_values(
        |l: AddressTableLookupView| spec_ser_lookup(l),
    );
    let ghost y6: Seq<u8> = spec_shortvec(w.address_table_lookups.len() as u16) + concat_from(
        wlk,
        0,
    );
    let ghost y5: Seq<u8> = concat_from(wix, 0) + y6;
    let ghost y4: Seq<u8> = spec_shortvec(w.instructions.len() as u16) + y5;
    let ghost y3: Seq<u8> = w.recent_blockhash + y4;
    let ghost y2: Seq<u8> = concat_from(w.account_keys, 0) + y3;
    let ghost y1: Seq<u8> = spec_shortvec(w.account_keys.len() as u16) + y2;
    let ghost h4w: Seq<u8> = seq![
        0x80u8,
        w.header.num_required_signatures,
        w.header.num_readonly_signed_accounts,
        w.header.num_readonly_unsigned_accounts,
    ];
    proof {
        if has_w {
            lemma_ser_msg_unfold(w);
            assert(d@ == h4w + y1);
            assert(d@.subrange(0, d@.len() as int) =~= d@);
            lemma_peel(d@, 0, h4w, y1);
        }
    }
    let dlen = d.len();
    if dlen < 4 {
        proof {
            if has_w {
                assert(false);
            }
        }
        return Option::None;
    }
    if d[0] != 0x80 {
        proof {
            if has_w {
                assert(d@.subrange(0, 4)[0] == d@[0]);
                assert(false);
            }
        }
        return Option::None;
    }
    let header = MsgHeader {
        num_required_signatures: d[1],
        num_readonly_signed_accounts: d[2],
        num_readonly_unsigned_accounts: d[3],
    };
    let ghost head: Seq<u8> = seq![
        0x80u8,
        header.num_required_signatures,
        header.num_readonly_signed_accounts,
        header.num_readonly_unsigned_accounts,
    ];
    assert(d@.subrange(0, 4) =~= head);
    let mut pos: usize = 4;

    let (nk, p) = match read_shortvec(d, pos) {
        Option::Some(x) => x,
        Option::None => {
            proof {
                if has_w {
                    lemma_peel(d@, 4, spec_shortvec(w.account_keys.len() as u16), y2);
                    assert(false);
                }
            }
            return Option::None;
        },
    };
    proof {
        if has_w {
            lemma_split(d@, 4, p as int);
            assert(spec_shortvec(nk) + d@.subrange(p as int, d@.len() as int) == spec_shortvec(
                w.account_keys.len() as u16,
            ) + y2);
            crate::shortvec::lemma_shortvec_prefix(
                nk,
                w.account_keys.len() as u16,
                d@.subrange(p as int, d@.len() as int),
                y2,
            );
            assert(nk as int == w.account_keys.len());
        }
    }
    pos = p;
    let ghost head2: Seq<u8> = head + spec_shortvec(nk);
    assert(d@.subrange(0, pos as int) =~= head2);

    let mut account_keys: Vec<Pubkey> = Vec::new();
    let mut i: usize = 0;
    while i < nk as usize
        invariant
            i <= nk as usize,
            account_keys@.len() == i,
            pos <= d@.len(),
            forall|j: int| 0 <= j < i ==> (#[trigger] account_keys@[j])@.len() == 32,
            d@.subrange(0, pos as int) == head2 + concat_upto(
                account_keys@.map_values(|k: Pubkey| k@),
                i as int,
            ),
            dlen == d@.len(),
            has_w == (exists|m: MsgView| wf_msg(m) && spec_ser_msg(m) == d@),
            has_w ==> wf_msg(w),
            has_w ==> nk as int == w.account_keys.len(),
            has_w ==> d@.subrange(pos as int, d@.len() as int) == concat_from(
                w.account_keys,
                i as int,
            ) + y3,
        decreases nk as usize - i,
    {
        proof {
            if has_w {
                assert(w.account_keys[i as int].len() == 32);
                assert((w.account_keys[i as int] + concat_from(w.account_keys, i as int + 1)) + y3
                    =~= w.account_keys[i as int] + (concat_from(w.account_keys, i as int + 1)
                    + y3));
                lemma_peel(
                    d@,
                    pos as int,
                    w.account_keys[i as int],
                    concat_from(w.account_keys, i as int + 1) + y3,
                );
            }
        }
        let b = match read_bytes(d, pos, 32) {
            Option::Some(b) => b,
            Option::None => {
                proof {
                    if has_w {
                        assert(false);
                    }
                }
                return Option::None;
            },
        };
        let ghost old_keys = account_keys@.map_values(|k: Pubkey| k@);
        account_keys.push(Pubkey { bytes: b });
        proof {
            let new_keys = account_keys@.map_values(|k: Pubkey| k@);
            lemma_concat_upto_agree(old_keys, new_keys, i as int);
            assert(d@.subrange(0, pos as int + 32) =~= d@.subrange(0, pos as int) + d@.subrange(
                pos as int,
                pos as int + 32,
            ));
            assert(d@.subrange(0, pos as int + 32) =~= head2 + concat_upto(
                new_keys,
                i as int + 1,
            ));
        }
        pos = pos + 32;
        i = i + 1;
    }
    let ghost keysv = account_keys@.map_values(|k: Pubkey| k@);
    let ghost head3: Seq<u8> = head2 + concat_upto(keysv, nk as int);
    proof {
        if has_w {
            assert(concat_from(w.account_keys, nk as int) =~= Seq::<u8>::empty());
            assert(Seq::<u8>::empty() + y3 =~= y3);
            assert(d@.subrange(pos as int, d@.len() as int) == y3);
            assert(w.recent_blockhash.len() == 32);
            lemma_peel(d@, pos as int, w.recent_blockhash, y4);
        }
    }

    let recent_blockhash = match read_bytes(d, pos, 32) {
        Option::Some(b) => b,
        Option::None => {
            proof {
                if has_w {
                    assert(false);
                }
            }
            return Option::None;
        },
    };
    proof {
        assert(d@.subrange(0, pos as int + 32) =~= d@.subrange(0, pos as int) + d@.subrange(
            pos as int,
            pos as int + 32,
        ));
    }
    pos = pos + 32;
    let ghost head4: Seq<u8> = head3 + recent_blockhash@;

    let (nix, p2) = match read_shortvec(d, pos) {
        Option::Some(x) => x,
        Option::None => {
            proof {
                if has_w {
                    lemma_peel(d@, pos as int, spec_shortvec(w.instructions.len() as u16), y5);
                    assert(false);
                }
            }
            return Option::None;
        },
    };
    proof {
        assert(d@.subrange(0, p2 as int) =~= d@.subrange(0, pos as int) + d@.subrange(
            pos as int,
            p2 as int,
        ));
        if has_w {
            lemma_split(d@, pos as int, p2 as int);
            assert(spec_shortvec(nix) + d@.subrange(p2 as int, d@.len() as int) == spec_shortvec(
                w.instructions.len() as u16,
            ) + y5);
            crate::shortvec::lemma_shortvec_prefix(
                nix,
                w.instructions.len() as u16,
                d@.subrange(p2 as int, d@.len() as int),
                y5,
            );
            assert(nix as int == w.instructions.len());
        }
    }
    pos = p2;
    let ghost head5: Seq<u8> = head4 + spec_shortvec(nix);
    assert(d@.subrange(0, pos as int) == head5);

    let mut instructions: Vec<CompiledIx> = Vec::new();
    let mut i: usize = 0;
    while i < nix as usize
        invariant
            i <= nix as usize,
            instructions@.len() == i,
            pos <= d@.len(),
            forall|j: int|
                0 <= j < i ==> (#[trigger] instructions@[j])@.accounts.len() <= 0xFFFF
                    && instructions@[j]@.data.len() <= 0xFFFF,
            d@.subrange(0, pos as int) == head5 + concat_upto(
                instructions@.map_values(|ix: CompiledIx| spec_ser_ix(ix@)),
                i as int,
            ),
            dlen == d@.len(),
            has_w == (exists|m: MsgView| wf_msg(m) && spec_ser_msg(m) == d@),
            has_w ==> wf_msg(w),
            has_w ==> nix as int == w.instructions.len(),
            has_w ==> wix == w.instructions.map_values(|ix: CompiledIxView| spec_ser_ix(ix)),
            has_w ==> d@.subrange(pos as int, d@.len() as int) == concat_from(wix, i as int) + y6,
        decreases nix as usize - i,
    {
        let ghost pos0 = pos as int;
        let ghost wi = w.instructions[i as int];
        let ghost rest0: Seq<u8> = concat_from(wix, i as int + 1) + y6;
        let ghost z4: Seq<u8> = wi.data + rest0;
        let ghost z3: Seq<u8> = spec_shortvec(wi.data.len() as u16) + z4;
        let ghost z2: Seq<u8> = wi.accounts + z3;
        let ghost z1: Seq<u8> = spec_shortvec(wi.accounts.len() as u16) + z2;
        proof {
            if has_w {
                assert(wix[i as int] == spec_ser_ix(wi));
                lemma_unfold_ix(wi, rest0);
                assert(concat_from(wix, i as int) + y6 =~= spec_ser_ix(wi) + rest0);
                lemma_peel(d@, pos as int, seq![wi.program_id_index], z1);
            }
        }
        if pos >= d.len() {
            proof {
                if has_w {
                    assert(false);
                }
            }
            return Option::None;
        }
        let program_id_index = d[pos];
        pos = pos + 1;
        let (na, pa) = match read_shortvec(d, pos) {
            Option::Some(x) => x,
            Option::None => {
                proof {
                    if has_w {
                        lemma_peel(d@, pos as int, spec_shortvec(wi.accounts.len() as u16), z2);
                        assert(false);
                    }
                }
                return Option::None;
            },
        };
        proof {
            if has_w {
                lemma_split(d@, pos as int, pa as int);
                assert(spec_shortvec(na) + d@.subrange(pa as int, d@.len() as int)
                    == spec_shortvec(wi.accounts.len() as u16) + z2);
                crate::shortvec::lemma_shortvec_prefix(
                    na,
                    wi.accounts.len() as u16,
                    d@.subrange(pa as int, d@.len() as int),
                    z2,
                );
                assert(na as int == wi.accounts.len());
                lemma_peel(d@, pa as int, wi.accounts, z3);
            }
        }
        let ghost posa = pos as int;
        pos = pa;
        let accounts = match read_bytes(d, pos, na as usize) {
            Option::Some(b) => b,
            Option::None => {
                proof {
                    if has_w {
                        assert(false);
                    }
                }
                return Option::None;
            },
        };
        let ghost posb = pos as int;
        pos = pos + na as usize;
        let (nd, pd) = match read_shortvec(d, pos) {
            Option::Some(x) => x,
            Option::None => {
                proof {
                    if has_w {
                        lemma_peel(d@, pos as int, spec_shortvec(wi.data.len() as u16), z4);
                        assert(false);
                    }
                }
                return Option::None;
            },
        };
        proof {
            if has_w {
                lemma_split(d@, pos as int, pd as int);
                assert(spec_shortvec(nd) + d@.subrange(pd as int, d@.len() as int)
                    == spec_shortvec(wi.data.len() as u16) + z4);
                crate::shortvec::lemma_shortvec_prefix(
                    nd,
                    wi.data.len() as u16,
                    d@.subrange(pd as int, d@.len() as int),
                    z4,
                );
                assert(nd as int == wi.data.len());
                lemma_peel(d@, pd as int, wi.data, rest0);
            }
        }
        let ghost posc = pos as int;
        pos = pd;
        let data = match read_bytes(d, pos, nd as usize) {
            Option::Some(b) => b,
            Option::None => {
                proof {
                    if has_w {
                        assert(false);
                    }
                }
                return Option::None;
            },
        };
        let ghost posd = pos as int;
        pos = pos + nd as usize;
        let ghost old_parts = instructions@.map_values(|ix: CompiledIx| spec_ser_ix(ix@));
        let ix = CompiledIx { program_id_index, accounts, data };
        proof {
            assert(spec_ser_ix(ix@) =~= seq![ix.program_id_index] + spec_shortvec(na)
                + ix.accounts@ + spec_shortvec(nd) + ix.data@);
            assert(d@.subrange(0, pos as int) =~= d@.subrange(0, pos0) + (d@.subrange(
                pos0,
                pos0 + 1,
            ) + d@.subrange(posa, pa as int) + d@.subrange(posb, posb + na as int) + d@.subrange(
                posc,
                pd as int,
            ) + d@.subrange(posd, posd + nd as int)));
            assert(d@.subrange(pos0, pos0 + 1) =~= seq![ix.program_id_index]);
            assert(d@.subrange(0, pos as int) == head5 + concat_upto(old_parts, i as int)
                + spec_ser_ix(ix@));
        }
        instructions.push(ix);
        proof {
            let new_parts = instructions@.map_values(|ix: CompiledIx| spec_ser_ix(ix@));
            lemma_concat_upto_agree(old_parts, new_parts, i as int);
            assert(d@.subrange(0, pos as int) == head5 + concat_upto(new_parts, i as int + 1));
        }
        i = i + 1;
    }
    let ghost ixv = instructions@.map_values(|ix: CompiledIx| spec_ser_ix(ix@));
    let ghost head6: Seq<u8> = head5 + concat_upto(ixv, nix as int);
    proof {
        if has_w {
            assert(concat_from(wix, nix as int) =~= Seq::<u8>::empty());
            assert(Seq::<u8>::empty() + y6 =~= y6);
            assert(d@.subrange(pos as int, d@.len() as int) == y6);
        }
    }

    let (nlk, p3) = match read_shortvec(d, pos) {
        Option::Some(x) => x,
        Option::None => {
            proof {
                if has_w {
                    lemma_peel(
                        d@,
                        pos as int,
                        spec_shortvec(w.address_table_lookups.len() as u16),
                        concat_from(wlk, 0),
                    );
                    assert(false);
                }
            }
            return Option::None;
        },
    };
    proof {
        assert(d@.subrange(0, p3 as int) =~= d@.subrange(0, pos as int) + d@.subrange(
            pos as int,
            p3 as int,
        ));
        if has_w {
            lemma_split(d@, pos as int, p3 as int);
            assert(spec_shortvec(nlk) + d@.subrange(p3 as int, d@.len() as int) == spec_shortvec(
                w.address_table_lookups.len() as u16,
            ) + concat_from(wlk, 0));
            crate::shortvec::lemma_shortvec_prefix(
                nlk,
                w.address_table_lookups.len() as u16,
                d@.subrange(p3 as int, d@.len() as int),
                concat_from(wlk, 0),
            );
            assert(nlk as int == w.address_table_lookups.len());
        }
    }
    pos = p3;
    let ghost head7: Seq<u8> = head6 + spec_shortvec(nlk);
    assert(d@.subrange(0, pos as int) == head7);

    let mut address_table_lookups: Vec<AddressTableLookup> = Vec::new();
    let mut i: usize = 0;
    while i < nlk as usize
        invariant
            i <= nlk as usize,
            address_table_lookups@.len() == i,
            pos <= d@.len(),
            forall|j: int|
                0 <= j < i ==> (#[trigger] address_table_lookups@[j])@.account_key.len() == 32
                    && address_table_lookups@[j]@.writable_indexes.len() <= 0xFFFF
                    && address_table_lookups@[j]@.readonly_indexes.len() <= 0xFFFF,
            d@.subrange(0, pos as int) == head7 + concat_upto(
                address_table_lookups@.map_values(|l: AddressTableLookup| spec_ser_lookup(l@)),
                i as int,
            ),
            dlen == d@.len(),
            has_w == (exists|m: MsgView| wf_msg(m) && spec_ser_msg(m) == d@),
            has_w ==> wf_msg(w),
            has_w ==> nlk as int == w.address_table_lookups.len(),
            has_w ==> wlk == w.address_table_lookups.map_values(
                |l: AddressTableLookupView| spec_ser_lookup(l),
            ),
            has_w ==> d@.subrange(pos as int, d@.len() as int) == concat_from(wlk, i as int),
        decreases nlk as usize - i,
    {
        let ghost pos0 = pos as int;
        let ghost wl = w.address_table_lookups[i as int];
        let ghost rest0: Seq<u8> = concat_from(wlk, i as int + 1);
        let ghost z4: Seq<u8> = wl.readonly_indexes + rest0;
        let ghost z3: Seq<u8> = spec_shortvec(wl.readonly_indexes.len() as u16) + z4;
        let ghost z2: Seq<u8> = wl.writable_indexes + z3;
        let ghost z1: Seq<u8> = spec_shortvec(wl.writable_indexes.len() as u16) + z2;
        proof {
            if has_w {
                assert(wlk[i as int] == spec_ser_lookup(wl));
                lemma_unfold_lookup(wl, rest0);
                assert(concat_from(wlk, i as int) =~= spec_ser_lookup(wl) + rest0);
                assert(wl.account_key.len() == 32);
                lemma_peel(d@, pos as int, wl.account_key, z1);
            }
        }
        let key = match read_bytes(d, pos, 32) {
            Option::Some(b) => b,
            Option::None => {
                proof {
                    if has_w {
                        assert(false);
                    }
                }
                return Option::None;
            },
        };
        pos = pos + 32;
        let (nw, pw) = match read_shortvec(d, pos) {
            Option::Some(x) => x,
            Option::None => {
                proof {
                    if has_w {
                        lemma_peel(
                            d@,
                            pos as int,
                            spec_shortvec(wl.writable_indexes.len() as u16),
                            z2,
                        );
                        assert(false);
                    }
                }
                return Option::None;
            },
        };
        proof {
            if has_w {
                lemma_split(d@, pos as int, pw as int);
                assert(spec_shortvec(nw) + d@.subrange(pw as int, d@.len() as int)
                    == spec_shortvec(wl.writable_indexes.len() as u16) + z2);
                crate::shortvec::lemma_shortvec_prefix(
                    nw,
                    wl.writable_indexes.len() as u16,
                    d@.subrange(pw as int, d@.len() as int),
                    z2,
                );
                assert(nw as int == wl.writable_indexes.len());
                lemma_peel(d@, pw as int, wl.writable_indexes, z3);
            }
        }
        let ghost posa = pos as int;
        pos = pw;
        let writable_indexes = match read_bytes(d, pos, nw as usize) {
            Option::Some(b) => b,
            Option::None => {
                proof {
                    if has_w {
                        assert(false);
                    }
                }
                return Option::None;
            },
        };
        let ghost posb = pos as int;
        pos = pos + nw as usize;
        let (nr, pr) = match read_shortvec(d, pos) {
            Option::Some(x) => x,
            Option::None => {
                proof {
                    if has_w {
                        lemma_peel(
                            d@,
                            pos as int,
                            spec_shortvec(wl.readonly_indexes.len() as u16),
                            z4,
                        );
                        assert(false);
                    }
                }
                return Option::None;
            },
        };
        proof {
            if has_w {
                lemma_split(d@, pos as int, pr as int);
                assert(spec_shortvec(nr) + d@.subrange(pr as int, d@.len() as int)
                    == spec_shortvec(wl.readonly_indexes.len() as u16) + z4);
                crate::shortvec::lemma_shortvec_prefix(
                    nr,
                    wl.readonly_indexes.len() as u16,
                    d@.subrange(pr as int, d@.len() as int),
                    z4,
                );
                assert(nr as int == wl.readonly_indexes.len());
                lemma_peel(d@, pr as int, wl.readonly_indexes, rest0);
            }
        }
        let ghost posc = pos as int;
        pos = pr;
        let readonly_indexes = match read_bytes(d, pos, nr as usize) {
            Option::Some(b) => b,
            Option::None => {
                proof {
                    if has_w {
                        assert(false);
                    }
                }
                return Option::None;
            },
        };
        let ghost posd = pos as int;
        pos = pos + nr as usize;
        let ghost old_parts = address_table_lookups@.map_values(
            |l: AddressTableLookup| spec_ser_lookup(l@),
        );
        let l = AddressTableLookup {
            account_key: Pubkey { bytes: key },
            writable_indexes,
            readonly_indexes,
        };
        proof {
            assert(spec_ser_lookup(l@) =~= l.account_key.bytes@ + spec_shortvec(nw)
                + l.writable_indexes@ + spec_shortvec(nr) + l.readonly_indexes@);
            assert(d@.subrange(0, pos as int) =~= d@.subrange(0, pos0) + (d@.subrange(
                pos0,
                pos0 + 32,
            ) + d@.subrange(posa, pw as int) + d@.subrange(posb, posb + nw as int) + d@.subrange(
                posc,
                pr as int,
            ) + d@.subrange(posd, posd + nr as int)));
            assert(d@.subrange(0, pos as int) == head7 + concat_upto(old_parts, i as int)
                + spec_ser_lookup(l@));
        }
        address_table_lookups.push(l);
        proof {
            let new_parts = address_table_lookups@.map_values(
                |l: AddressTableLookup| spec_ser_lookup(l@),
            );
            lemma_concat_upto_agree(old_parts, new_parts, i as int);
            assert(d@.subrange(0, pos as int) == head7 + concat_upto(new_parts, i as int + 1));
        }
        i = i + 1;
    }

    if pos != dlen {
        proof {
            if has_w {
                assert(concat_from(wlk, nlk as int) =~= Seq::<u8>::empty());
                assert(d@.subrange(pos as int, d@.len() as int).len() == d@.len() - pos);
                assert(false);
            }
        }
        return Option::None;
    }
    let m = VersionedMsg {
        header,
        account_keys,
        recent_blockhash,
        instructions,
        address_table_lookups,
    };
    proof {
        assert(m@.account_keys =~= keysv);
        assert(m@.instructions.map_values(|ix: CompiledIxView| spec_ser_ix(ix)) =~= ixv);
        assert(m@.address_table_lookups.map_values(|l: AddressTableLookupView| spec_ser_lookup(l))
            =~= address_table_lookups@.map_values(|l: AddressTableLookup| spec_ser_lookup(l@)));
        assert(wf_msg(m@));
        assert(d@ =~= d@.subrange(0, pos as int));
        assert(spec_ser_msg(m@) =~= d@);
    }
    Option::Some(m)
}

} // verus!
