use vstd::prelude::*;

verus! {

/// Number of bits above the instance and sequence fields: the timestamp sits here.
pub const TIMESTAMP_SHIFT: u64 = 22;

/// Number of bits below the instance field: the sequence sits here.
pub const INSTANCE_ID_SHIFT: u64 = 10;

/// Largest instance id that fits in its 12-bit field.
pub const MAX_INSTANCE_ID: u16 = 4095;

/// Largest sequence value that fits in its 10-bit field.
pub const MAX_SEQUENCE: u16 = 1023;

/// Largest epoch-relative timestamp that fits in its 42-bit field.
pub const MAX_TIMESTAMP: u64 = 4398046511103;

/// The identifier with the given fields: timestamp in the high 42 bits,
/// instance id in the next 12, sequence in the low 10.
pub open spec fn id_of(timestamp: int, instance_id: int, sequence: int) -> int {
    timestamp * 4194304 + instance_id * 1024 + sequence
}

/// The fields of an identifier are each within their widths.
pub open spec fn fields_fit(timestamp: int, instance_id: int, sequence: int) -> bool {
    0 <= timestamp <= MAX_TIMESTAMP && 0 <= instance_id <= MAX_INSTANCE_ID && 0 <= sequence
        <= MAX_SEQUENCE
}

/// The epoch-relative timestamp field of an identifier.
pub open spec fn timestamp_field(id: u64) -> int {
    id as int / 4194304
}

/// The instance id field of an identifier.
pub open spec fn instance_id_field(id: u64) -> int {
    (id as int / 1024) % 4096
}

/// The sequence field of an identifier.
pub open spec fn sequence_field(id: u64) -> int {
    id as int % 1024
}

/// Packs a timestamp, an instance id and a sequence into one identifier.
pub fn encode(timestamp: u64, instance_id: u16, sequence: u16) -> (r: u64)
    requires
        fields_fit(timestamp as int, instance_id as int, sequence as int),
    ensures
        r as int == id_of(timestamp as int, instance_id as int, sequence as int),
{
    let iid = instance_id as u64;
    let seq = sequence as u64;
    assert((timestamp << 22u64) | (iid << 10u64) | seq == timestamp * 4194304 + iid * 1024 + seq)
        by (bit_vector)
        requires
            timestamp <= 4398046511103u64,
            iid <= 4095u64,
            seq <= 1023u64,
    ;
    (timestamp << TIMESTAMP_SHIFT) | (iid << INSTANCE_ID_SHIFT) | seq
}

/// The absolute timestamp at which an identifier was stamped, given the epoch
/// of the generator that produced it.
pub fn timestamp_from_id(unique_id: u64, epoch_offset: u64) -> (r: u64)
    requires
        timestamp_field(unique_id) + epoch_offset <= u64::MAX,
    ensures
        r == timestamp_field(unique_id) + epoch_offset,
{
    assert(unique_id >> 22u64 == unique_id / 4194304) by (bit_vector);
    (unique_id >> TIMESTAMP_SHIFT) + epoch_offset
}

/// The instance id of the generator that produced an identifier.
pub fn instance_id_from_id(unique_id: u64) -> (r: u16)
    ensures
        r == instance_id_field(unique_id),
        r <= MAX_INSTANCE_ID,
{
    assert((unique_id >> 10u64) & 4095u64 == (unique_id / 1024) % 4096) by (bit_vector);
    assert((unique_id >> 10u64) & 4095u64 <= 4095u64) by (bit_vector);
    ((unique_id >> INSTANCE_ID_SHIFT) & (MAX_INSTANCE_ID as u64)) as u16
}

/// Decoding an identifier gives back each of the fields it was packed from.
pub proof fn lemma_fields_of_id(timestamp: int, instance_id: int, sequence: int)
    requires
        fields_fit(timestamp, instance_id, sequence),
    ensures
        0 <= id_of(timestamp, instance_id, sequence) <= u64::MAX,
        timestamp_field(id_of(timestamp, instance_id, sequence) as u64) == timestamp,
        instance_id_field(id_of(timestamp, instance_id, sequence) as u64) == instance_id,
        sequence_field(id_of(timestamp, instance_id, sequence) as u64) == sequence,
{
    let id = id_of(timestamp, instance_id, sequence);
    assert(0 <= id <= u64::MAX) by (nonlinear_arith)
        requires
            fields_fit(timestamp, instance_id, sequence),
            id == timestamp * 4194304 + instance_id * 1024 + sequence,
    ;
    let low = instance_id * 1024 + sequence;
    assert(0 <= low < 4194304);
    vstd::arithmetic::div_mod::lemma_fundamental_div_mod_converse(id, 4194304, timestamp, low);
    vstd::arithmetic::div_mod::lemma_fundamental_div_mod_converse(
        id,
        1024,
        timestamp * 4096 + instance_id,
        sequence,
    );
    vstd::arithmetic::div_mod::lemma_fundamental_div_mod_converse(
        timestamp * 4096 + instance_id,
        4096,
        timestamp,
        instance_id,
    );
}

/// Identifiers order as their (timestamp, sequence) pairs do, for one instance id.
pub proof fn lemma_id_order(instance_id: int, t1: int, s1: int, t2: int, s2: int)
    requires
        fields_fit(t1, instance_id, s1),
        fields_fit(t2, instance_id, s2),
    ensures
        id_of(t1, instance_id, s1) < id_of(t2, instance_id, s2) <==> (t1 < t2 || (t1 == t2 && s1
            < s2)),
{
    if t1 < t2 {
        assert(t1 * 4194304 + 4194304 <= t2 * 4194304) by (nonlinear_arith)
            requires
                t1 < t2,
        ;
    } else if t2 < t1 {
        assert(t2 * 4194304 + 4194304 <= t1 * 4194304) by (nonlinear_arith)
            requires
                t2 < t1,
        ;
    }
}

/// Round trip through the codec: the instance id comes back out of any
/// identifier, and the timestamp of an identifier with empty instance and
/// sequence fields comes back shifted by the epoch.
pub proof fn lemma_round_trip(timestamp: int, instance_id: int, sequence: int, epoch: int)
    requires
        fields_fit(timestamp, instance_id, sequence),
        0 <= epoch,
    ensures
        instance_id_field(id_of(timestamp, instance_id, sequence) as u64) == instance_id,
        timestamp_field(id_of(timestamp, 0, 0) as u64) + epoch == timestamp + epoch,
{
    lemma_fields_of_id(timestamp, instance_id, sequence);
    lemma_fields_of_id(timestamp, 0, 0);
}

} // verus!
