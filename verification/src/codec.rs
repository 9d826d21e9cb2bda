//! Encoding of a variable-length filesystem path into the fixed-size,
//! null-terminated local-socket address buffer that the datagram send
//! syscall expects.

use vstd::prelude::*;

verus! {

/// Size in bytes of the platform's socket-address storage structure.
pub const STORAGE_LEN: usize = 128;

/// Size in bytes of the leading address-family tag field.
pub const FAMILY_LEN: usize = 2;

/// Size in bytes of the path field of a local-socket address structure.
pub const PATH_FIELD_LEN: usize = 108;

/// Longest path that still leaves room for the mandatory null terminator.
pub const MAX_PATH_LEN: usize = PATH_FIELD_LEN - 1;

/// The two bytes of the local-address family tag, as the platform stores
/// them at the front of the address structure.
pub open spec fn family_tag() -> Seq<u8> {
    seq![1u8, 0u8]
}

/// `n` zero bytes.
pub open spec fn zero_bytes(n: nat) -> Seq<u8> {
    Seq::new(n, |i: int| 0u8)
}

/// The full address buffer encoding `path`: family tag, then the path
/// bytes, then zero padding out to the storage size.
pub open spec fn encoded_address(path: Seq<u8>) -> Seq<u8> {
    family_tag() + path + zero_bytes((STORAGE_LEN - FAMILY_LEN - path.len()) as nat)
}

/// Index of the first zero byte of `buf` at or after `from`, or `buf.len()`
/// if every byte from `from` on is non-zero.
pub open spec fn first_zero_from(buf: Seq<u8>, from: int) -> int
    decreases buf.len() - from,
{
    if from < 0 || from >= buf.len() {
        buf.len() as int
    } else if buf[from] == 0u8 {
        from
    } else {
        first_zero_from(buf, from + 1)
    }
}

/// The path stored in an encoded address buffer: the bytes after the family
/// tag, up to (not including) the first null.
pub open spec fn decoded_path(buf: Seq<u8>) -> Seq<u8> {
    buf.subrange(FAMILY_LEN as int, first_zero_from(buf, FAMILY_LEN as int))
}

/// The destination path does not fit in the address structure's path field.
#[derive(Debug)]
pub struct AddressTooLong;

/// A fully encoded local-socket address: the fixed-size buffer and the
/// exact length that must be declared to the send syscall.
#[derive(Debug)]
pub struct SocketAddress {
    /// The address bytes, `STORAGE_LEN` of them.
    pub buffer: Vec<u8>,
    /// Family tag plus path bytes plus one null terminator; the send
    /// syscall must be given this value, not the full buffer size.
    pub declared_length: usize,
}

impl SocketAddress {
    /// The address encodes `path`: the buffer holds the tag, the path and
    /// null padding, and the declared length counts tag, path and one
    /// terminator.
    pub open spec fn encodes(self, path: Seq<u8>) -> bool {
        &&& path.len() <= MAX_PATH_LEN
        &&& self.buffer@ == encoded_address(path)
        &&& self.declared_length == FAMILY_LEN + path.len() + 1
    }
}

/// Encodes `path` into a fixed-size local-socket address buffer.
///
/// Succeeds exactly on paths that leave room for the null terminator;
/// longer paths are rejected rather than truncated.
pub fn encode(path: &Vec<u8>) -> (r: Result<SocketAddress, AddressTooLong>)
    ensures
        match r {
            Ok(addr) => path@.len() <= MAX_PATH_LEN && addr.encodes(path@),
            Err(_) => path@.len() > MAX_PATH_LEN,
        },
{
    if path.len() > MAX_PATH_LEN {
        return Err(AddressTooLong);
    }
    let mut buffer: Vec<u8> = Vec::new();
    buffer.push(1u8);
    buffer.push(0u8);
    assert(buffer@ =~= family_tag());
    let mut i: usize = 0;
    while i < path.len()
        invariant
            i <= path@.len(),
            buffer@ == family_tag() + path@.subrange(0, i as int),
        decreases path@.len() - i,
    {
        buffer.push(path[i]);
        assert(buffer@ =~= family_tag() + path@.subrange(0, i + 1 as int));
        i = i + 1;
    }
    assert(path@.subrange(0, path@.len() as int) =~= path@);
    while buffer.len() < STORAGE_LEN
        invariant
            path@.len() + FAMILY_LEN <= buffer@.len() <= STORAGE_LEN,
            buffer@ == family_tag() + path@
                + zero_bytes((buffer@.len() - FAMILY_LEN - path@.len()) as nat),
        decreases STORAGE_LEN - buffer@.len(),
    {
        buffer.push(0u8);
        assert(buffer@ =~= family_tag() + path@
            + zero_bytes((buffer@.len() - FAMILY_LEN - path@.len()) as nat));
    }
    let declared_length = FAMILY_LEN + path.len() + 1;
    Ok(SocketAddress { buffer, declared_length })
}

/// Reads the path back out of an encoded address buffer: the bytes after
/// the family tag, up to the first null.
pub fn decode(addr: &SocketAddress) -> (r: Vec<u8>)
    requires
        addr.buffer@.len() == STORAGE_LEN,
    ensures
        r@ == decoded_path(addr.buffer@),
{
    let mut end: usize = FAMILY_LEN;
    while end < STORAGE_LEN && addr.buffer[end] != 0u8
        invariant
            FAMILY_LEN <= end <= STORAGE_LEN,
            addr.buffer@.len() == STORAGE_LEN,
            forall|k: int| FAMILY_LEN <= k < end ==> addr.buffer@[k] != 0u8,
        decreases STORAGE_LEN - end,
    {
        end = end + 1;
    }
    proof {
        lemma_first_zero_from_value(addr.buffer@, FAMILY_LEN as int, end as int);
    }
    let mut path: Vec<u8> = Vec::new();
    let mut i: usize = FAMILY_LEN;
    while i < end
        invariant
            FAMILY_LEN <= i <= end <= addr.buffer@.len(),
            path@ == addr.buffer@.subrange(FAMILY_LEN as int, i as int),
        decreases end - i,
    {
        path.push(addr.buffer[i]);
        assert(path@ =~= addr.buffer@.subrange(FAMILY_LEN as int, i + 1 as int));
        i = i + 1;
    }
    path
}

/// The first zero at or after `from` is at `j` when nothing before `j`
/// (from `from` on) is zero and either `buf[j]` is zero or `j` is the end
/// of the buffer.
proof fn lemma_first_zero_from_value(buf: Seq<u8>, from: int, j: int)
    requires
        0 <= from <= j <= buf.len(),
        forall|k: int| from <= k < j ==> buf[k] != 0u8,
        j < buf.len() ==> buf[j] == 0u8,
    ensures
        first_zero_from(buf, from) == j,
    decreases j - from,
{
    if from < j {
        lemma_first_zero_from_value(buf, from + 1, j);
    }
}

/// The structural invariant of the buffer layout: the storage structure is
/// at least as large as the family tag and path field it overlays.
pub proof fn lemma_storage_fits_path_family()
    ensures
        FAMILY_LEN + PATH_FIELD_LEN <= STORAGE_LEN,
{
}

/// Law: encoding is lossless.  Any path that fits, and has no interior
/// null byte, is read back exactly by decoding the produced buffer's path
/// field up to the first null.
pub proof fn lemma_encode_round_trip(path: Seq<u8>)
    requires
        path.len() <= MAX_PATH_LEN,
        forall|i: int| 0 <= i < path.len() ==> path[i] != 0u8,
    ensures
        decoded_path(encoded_address(path)) == path,
{
    let buf = encoded_address(path);
    assert forall|k: int| FAMILY_LEN <= k < FAMILY_LEN + path.len() implies buf[k] != 0u8 by {
        assert(buf[k] == path[k - FAMILY_LEN]);
    }
    assert(buf[FAMILY_LEN + path.len()] == 0u8);
    lemma_first_zero_from_value(buf, FAMILY_LEN as int, FAMILY_LEN + path.len());
    assert(buf.subrange(FAMILY_LEN as int, FAMILY_LEN + path.len()) =~= path);
}

} // verus!
