//! The version envelope: an optional header of four magic bytes and a
//! varint version number ahead of payload bytes. Version 0 has no header, so
//! unversioned payloads read as version 0.
use crate::varint::{
    lemma_varint_round_trip, read_varint, varint_bytes, varint_complete, varint_value,
    varint_width, write_varint,
};
use vstd::prelude::*;
use vstd::slice::slice_subrange;

verus! {

/// The magic bytes that open an envelope header: `DVer`.
pub open spec fn magic() -> Seq<u8> {
    seq![0x44u8, 0x56u8, 0x65u8, 0x72u8]
}

/// The header for `version`: none for version 0, else the magic bytes and
/// the version's varint.
pub open spec fn header_bytes(version: u64) -> Seq<u8> {
    if version > 0 {
        magic() + varint_bytes(version)
    } else {
        Seq::empty()
    }
}

/// `payload` in the envelope of `version`.
pub open spec fn envelope(version: u64, payload: Seq<u8>) -> Seq<u8> {
    header_bytes(version) + payload
}

/// `data` opens with the magic bytes.
pub open spec fn starts_with_magic(data: Seq<u8>) -> bool {
    data.len() >= 4 && data.take(4) == magic()
}

/// What `unwrap_version` makes of `data`: the version and the bytes after
/// the header; `(0, data)` where no magic bytes open it, and
/// `(0, data after the magic bytes)` where no whole varint follows them.
pub open spec fn unwrapped(data: Seq<u8>) -> (u64, Seq<u8>) {
    if starts_with_magic(data) {
        let rest = data.skip(4);
        if varint_complete(rest) {
            (varint_value(rest) as u64, rest.skip(varint_width(rest) as int))
        } else {
            (0, rest)
        }
    } else {
        (0, data)
    }
}

/// A type that has a constant version number.
pub trait ConstVersioned {
    /// The version of this type.
    const VERSION: u64;
}

/// A value that has a version number.
pub trait Versioned {
    /// The version of this value, in specifications.
    spec fn spec_version(&self) -> u64;

    /// The version of this value.
    fn version(&self) -> (r: u64)
        ensures
            r == self.spec_version(),
    ;
}

impl<T: ConstVersioned> Versioned for T {
    open spec fn spec_version(&self) -> u64 {
        T::VERSION
    }

    fn version(&self) -> (r: u64) {
        T::VERSION
    }
}

impl Versioned for u64 {
    open spec fn spec_version(&self) -> u64 {
        *self
    }

    fn version(&self) -> (r: u64) {
        *self
    }
}

/// An unknown version was encountered.
#[derive(Debug, PartialEq, Eq, Structural)]
pub struct UnknownVersion(pub u64);

/// An error from decoding a versioned payload.
#[derive(Debug, PartialEq, Eq, Structural)]
pub enum Error<E> {
    /// The version has no decoder.
    UnknownVersion(UnknownVersion),
    /// The magic bytes are there, but no whole version number follows them.
    InvalidHeader,
    /// The payload's own format failed.
    Format(E),
}

fn header(version: u64) -> (r: Option<Vec<u8>>)
    ensures
        version == 0 <==> r is None,
        r matches Some(h) ==> h@ == header_bytes(version),
{
    if version > 0 {
        let mut h: Vec<u8> = Vec::with_capacity(13);
        h.push(0x44);
        h.push(0x56);
        h.push(0x65);
        h.push(0x72);
        assert(h@ =~= magic());
        write_varint(version, &mut h);
        Some(h)
    } else {
        None
    }
}

/// Appends the header for `versioned`, if it needs one, to `out`.
pub fn write_header<V: Versioned>(versioned: &V, out: &mut Vec<u8>)
    ensures
        final(out)@ == old(out)@ + header_bytes(versioned.spec_version()),
{
    let version = versioned.version();
    match header(version) {
        Some(h) => {
            let mut h = h;
            out.append(&mut h);
        },
        None => {
            assert(old(out)@ + header_bytes(version) =~= old(out)@);
        },
    }
}

/// Wraps `data` in the envelope for `versioned`: the header, if it needs
/// one, then `data`.
pub fn wrap<V: Versioned>(versioned: &V, data: Vec<u8>) -> (r: Vec<u8>)
    ensures
        r@ == envelope(versioned.spec_version(), data@),
{
    let version = versioned.version();
    match header(version) {
        Some(h) => {
            let mut out = h;
            let mut data = data;
            out.append(&mut data);
            out
        },
        None => {
            assert(envelope(version, data@) =~= data@);
            data
        },
    }
}

fn has_magic(data: &[u8]) -> (r: bool)
    ensures
        r == starts_with_magic(data@),
{
    if data.len() < 4 {
        return false;
    }
    let r = data[0] == 0x44 && data[1] == 0x56 && data[2] == 0x65 && data[3] == 0x72;
    assert(r == (data@.take(4) =~= magic()));
    r
}

/// Reads the envelope at the front of `data`: the version and the bytes
/// after the header. Without the magic bytes the result is `(0, data)`,
/// nothing consumed.
pub fn unwrap_version(data: &[u8]) -> (r: (u64, &[u8]))
    ensures
        (r.0, r.1@) == unwrapped(data@),
{
    if has_magic(data) {
        let rest = slice_subrange(data, 4, data.len());
        assert(rest@ =~= data@.skip(4));
        match read_varint(rest) {
            Some((version, after)) => (version, after),
            None => (0, rest),
        }
    } else {
        (0, data)
    }
}

/// Reads the envelope at the front of `data` and hands the version and the
/// bytes after the header to `callback`, whose result is returned. Where the
/// magic bytes are not followed by a whole version number, the result is
/// `Error::InvalidHeader` and `callback` is not called.
pub fn decode<T, E, F: FnOnce(u64, &[u8]) -> Result<T, Error<E>>>(data: &[u8], callback: F) -> (r:
    Result<T, Error<E>>)
    requires
        forall|v: u64, s: &[u8]| callback.requires((v, s)),
    ensures
        starts_with_magic(data@) && !varint_complete(data@.skip(4)) ==> r is Err && r->Err_0 is InvalidHeader,
        !(starts_with_magic(data@) && !varint_complete(data@.skip(4))) ==> exists|s: &[u8]|
            #![auto]
            (unwrapped(data@).0, s@) == unwrapped(data@) && callback.ensures((unwrapped(data@).0, s), r),
{
    if has_magic(data) {
        let rest = slice_subrange(data, 4, data.len());
        assert(rest@ =~= data@.skip(4));
        match read_varint(rest) {
            Some((version, after)) => callback(version, after),
            None => Err(Error::InvalidHeader),
        }
    } else {
        callback(0, data)
    }
}

/// Unwrapping a wrapped payload gives back its version and the payload.
/// A bare payload (version 0) that itself opens with the magic bytes would
/// be read as an envelope, so it is left out.
pub proof fn lemma_envelope_round_trip(version: u64, payload: Seq<u8>)
    requires
        version > 0 || !starts_with_magic(payload),
    ensures
        unwrapped(envelope(version, payload)) == (version, payload),
{
    let data = envelope(version, payload);
    if version > 0 {
        assert(data.take(4) =~= magic());
        let rest = data.skip(4);
        assert(rest =~= varint_bytes(version) + payload);
        lemma_varint_round_trip(version, payload);
        assert(rest.skip(varint_bytes(version).len() as int) =~= payload);
    } else {
        assert(data =~= payload);
    }
}

/// Bytes that do not open with the magic bytes read as version 0, with
/// nothing consumed.
pub proof fn lemma_bare_payload(data: Seq<u8>)
    requires
        !starts_with_magic(data),
    ensures
        unwrapped(data) == (0u64, data),
{
}

} // verus!
