use vstd::prelude::*;

verus! {

/// The file mode of nix, `nix::sys::stat::Mode`: a set of permission flags
/// that is carried here as it is and never looked into.
#[verifier::external_type_specification]
#[verifier::external_body]
pub struct ExMode(nix::sys::stat::Mode);

/// The permission bits that a file mode holds: what `Mode::bits` of nix
/// returns for it, and what a change of a file's mode hands to the operating
/// system.
pub uninterp spec fn mode_bits(mode: nix::sys::stat::Mode) -> u32;

/// The bits that a file mode can hold: read, write and execute for the
/// owner, the group and the others, set-user-id, set-group-id and sticky.
pub const MODE_MASK: u32 = 0o7777;

/// The permission bits that every socket file gets once it is bound.
pub const SOCKET_MODE_BITS: u32 = 0o666;

/// The bits let the owner, the group and all others read and write, let
/// nobody execute, and set nothing else.
pub open spec fn read_write_for_all(bits: u32) -> bool {
    &&& bits & 0o444 == 0o444
    &&& bits & 0o222 == 0o222
    &&& bits & 0o111 == 0
    &&& bits & !0o777u32 == 0
}

/// `Mode::from_bits` of nix. Trusted: that it gives a mode exactly when
/// `bits` has no bit outside `MODE_MASK`, the union of the flags that nix
/// defines, and that the mode then holds `bits` and nothing else.
#[verifier::external_body]
fn mode_from_bits(bits: u32) -> (mode: Option<nix::sys::stat::Mode>)
    ensures
        mode is Some <==> bits & !MODE_MASK == 0,
        mode matches Some(m) ==> mode_bits(m) == bits,
{
    nix::sys::stat::Mode::from_bits(bits)
}

/// The mode that a socket file is given right after it is bound, so that
/// every local process can connect: read and write for the owner, the group
/// and the others, and nothing more.
pub fn socket_mode() -> (mode: nix::sys::stat::Mode)
    ensures
        mode_bits(mode) == SOCKET_MODE_BITS,
        read_write_for_all(mode_bits(mode)),
{
    assert(SOCKET_MODE_BITS & !MODE_MASK == 0) by (bit_vector);
    assert(read_write_for_all(SOCKET_MODE_BITS)) by {
        assert(0o666u32 & 0o444 == 0o444) by (bit_vector);
        assert(0o666u32 & 0o222 == 0o222) by (bit_vector);
        assert(0o666u32 & 0o111 == 0) by (bit_vector);
        assert(0o666u32 & !0o777u32 == 0) by (bit_vector);
    }
    match mode_from_bits(SOCKET_MODE_BITS) {
        Some(mode) => mode,
        None => vstd::pervasive::unreached(),
    }
}

/// The socket mode is the only one of its kind: bits that let everybody read
/// and write and nothing else are the socket's bits.
pub proof fn lemma_socket_mode_is_read_write_for_all(bits: u32)
    ensures
        read_write_for_all(bits) <==> bits == SOCKET_MODE_BITS,
{
    assert((bits & 0o444 == 0o444 && bits & 0o222 == 0o222 && bits & 0o111 == 0 && bits
        & !0o777u32 == 0) <==> bits == 0o666u32) by (bit_vector);
}

} // verus!
