//! The codec capability that the frame reader and writer are generic over,
//! and the settings of the codecs that come with the library.
use vstd::prelude::*;

verus! {

/// A serialization format: turns values into bytes and bytes into values.
///
/// The frame reader and writer never look at which format they carry.
pub trait Format<T> {
    /// The error type this format produces.
    type Error;

    /// The number of bytes that `value` will take, where the format can tell
    /// ahead of time; `None` where it cannot. Only a hint for allocation.
    fn serialized_size(&self, value: &T) -> (r: Result<Option<usize>, Self::Error>) {
        Ok(None)
    }

    /// Serializes `value` into a new vector, sized by `serialized_size`
    /// where it gives a size.
    fn serialize(&self, value: &T) -> (r: Result<Vec<u8>, Self::Error>) {
        let mut bytes = match self.serialized_size(value) {
            Ok(Some(size)) => Vec::with_capacity(size),
            Ok(None) => Vec::new(),
            Err(e) => {
                return Err(e);
            },
        };
        match self.serialize_into(value, &mut bytes) {
            Ok(()) => Ok(bytes),
            Err(e) => Err(e),
        }
    }

    /// Serializes `value` at the end of `out`. The bytes already in `out`
    /// stay where they are, whatever the outcome.
    fn serialize_into(&self, value: &T, out: &mut Vec<u8>) -> (r: Result<(), Self::Error>)
        ensures
            old(out)@.is_prefix_of(final(out)@),
    ;

    /// Deserializes a value from all of `data`.
    fn deserialize(&self, data: &[u8]) -> (r: Result<T, Self::Error>);
}

/// A format that decodes values owning all their data.
pub trait OwnedDeserializer<T>: Format<T> {
    /// Deserializes a value from all of `data`; by default, as `deserialize`
    /// does.
    fn deserialize_owned(&self, data: &[u8]) -> (r: Result<T, Self::Error>) {
        self.deserialize(data)
    }
}

/// A format that may decode values borrowing from the bytes they come from.
pub trait BorrowedDeserializer<'a, T>: Format<T> {
    /// Deserializes a value from all of `data`, borrowing from it where the
    /// format can; by default, as `deserialize` does.
    fn deserialize_borrowed(&self, data: &'a [u8]) -> (r: Result<T, Self::Error>) {
        self.deserialize(data)
    }
}

/// Byte order of the Bincode format.
#[derive(Clone, Copy, Debug, PartialEq, Eq, Structural)]
pub enum Endian {
    /// Least significant byte first.
    Little,
    /// Most significant byte first.
    Big,
    /// The machine's own order.
    Native,
}

/// How the Bincode format writes integers.
#[derive(Clone, Copy, Debug, PartialEq, Eq, Structural)]
pub enum IntegerEncoding {
    /// Every integer takes its full width.
    Fixed,
    /// Small integers take fewer bytes.
    Variable,
}

/// The settings of the Bincode format.
#[derive(Clone, Copy, Debug, PartialEq, Eq, Structural)]
pub struct Bincode {
    /// The most bytes that encoding or decoding may use, if bounded.
    pub limit: Option<u64>,
    /// The byte order.
    pub endian: Endian,
    /// How integers are written.
    pub integer_encoding: IntegerEncoding,
    /// Whether decoding fails on bytes left after the value.
    pub reject_trailing_bytes: bool,
}

impl Default for Bincode {
    /// No limit, little endian, variable integers, trailing bytes rejected.
    fn default() -> (r: Self)
        ensures
            r.limit is None,
            r.endian == Endian::Little,
            r.integer_encoding == IntegerEncoding::Variable,
            r.reject_trailing_bytes,
    {
        Bincode {
            limit: None,
            endian: Endian::Little,
            integer_encoding: IntegerEncoding::Variable,
            reject_trailing_bytes: true,
        }
    }
}

impl Bincode {
    /// The settings that Bincode's own free functions use: the defaults with
    /// fixed integers and trailing bytes allowed.
    pub fn legacy_default() -> (r: Self)
        ensures
            r.limit is None,
            r.endian == Endian::Little,
            r.integer_encoding == IntegerEncoding::Fixed,
            !r.reject_trailing_bytes,
    {
        Self::default().fixed_integer_encoding().allow_trailing_bytes()
    }

    /// No byte limit.
    pub fn no_limit(self) -> (r: Self)
        ensures
            r == (Bincode { limit: None, ..self }),
    {
        Bincode { limit: None, ..self }
    }

    /// Encoding and decoding may use at most `byte_limit` bytes.
    pub fn limit(self, byte_limit: u64) -> (r: Self)
        ensures
            r == (Bincode { limit: Some(byte_limit), ..self }),
    {
        Bincode { limit: Some(byte_limit), ..self }
    }

    /// Big-endian byte order.
    pub fn big_endian(self) -> (r: Self)
        ensures
            r == (Bincode { endian: Endian::Big, ..self }),
    {
        Bincode { endian: Endian::Big, ..self }
    }

    /// Little-endian byte order.
    pub fn little_endian(self) -> (r: Self)
        ensures
            r == (Bincode { endian: Endian::Little, ..self }),
    {
        Bincode { endian: Endian::Little, ..self }
    }

    /// The machine's own byte order.
    pub fn native_endian(self) -> (r: Self)
        ensures
            r == (Bincode { endian: Endian::Native, ..self }),
    {
        Bincode { endian: Endian::Native, ..self }
    }

    /// Variable-length integers.
    pub fn variable_integer_encoding(self) -> (r: Self)
        ensures
            r == (Bincode { integer_encoding: IntegerEncoding::Variable, ..self }),
    {
        Bincode { integer_encoding: IntegerEncoding::Variable, ..self }
    }

    /// Fixed-length integers.
    pub fn fixed_integer_encoding(self) -> (r: Self)
        ensures
            r == (Bincode { integer_encoding: IntegerEncoding::Fixed, ..self }),
    {
        Bincode { integer_encoding: IntegerEncoding::Fixed, ..self }
    }

    /// Decoding accepts bytes left after the value.
    pub fn allow_trailing_bytes(self) -> (r: Self)
        ensures
            r == (Bincode { reject_trailing_bytes: false, ..self }),
    {
        Bincode { reject_trailing_bytes: false, ..self }
    }

    /// Decoding fails on bytes left after the value.
    pub fn reject_trailing_bytes(self) -> (r: Self)
        ensures
            r == (Bincode { reject_trailing_bytes: true, ..self }),
    {
        Bincode { reject_trailing_bytes: true, ..self }
    }
}

/// The settings of the JSON format.
#[derive(Clone, Copy, Debug, PartialEq, Eq, Structural)]
pub struct Json {
    /// Whether output is indented for people to read.
    pub pretty: bool,
}

impl Default for Json {
    /// Compact output.
    fn default() -> (r: Self)
        ensures
            !r.pretty,
    {
        Json { pretty: false }
    }
}

impl Json {
    /// The same settings, with indented output.
    pub fn pretty(self) -> (r: Self)
        ensures
            r.pretty,
    {
        Json { pretty: true }
    }
}

/// The CBOR format, as the `ciborium` crate writes it, behind the
/// `Format` methods that take byte slices.
#[derive(Clone, Copy, Debug, Default, PartialEq, Eq, Structural)]
pub struct Cbor;

/// The CBOR format, as the `ciborium` crate writes it.
#[derive(Clone, Copy, Debug, Default, PartialEq, Eq, Structural)]
pub struct Ciborium;

#[verifier::external_type_specification]
#[verifier::external_body]
pub struct ExPotConfig(pot::Config);

/// The Pot format, with its settings.
pub struct Pot(pub pot::Config);

/// Relies on `pot::Config::default`: Pot's default settings.
#[verifier::external_body]
fn default_pot_config() -> (r: pot::Config) {
    pot::Config::default()
}

impl Default for Pot {
    /// Pot's default settings.
    fn default() -> (r: Self) {
        Pot(default_pot_config())
    }
}

impl From<pot::Config> for Pot {
    /// The Pot format with `config`.
    fn from(config: pot::Config) -> (r: Self) {
        Pot(config)
    }
}

impl vstd::std_specs::convert::FromSpecImpl<pot::Config> for Pot {
    open spec fn obeys_from_spec() -> bool {
        true
    }

    open spec fn from_spec(config: pot::Config) -> Self {
        Pot(config)
    }
}

impl Pot {
    /// The settings this format uses.
    pub fn config(&self) -> (r: &pot::Config)
        ensures
            *r == self.0,
    {
        &self.0
    }
}

} // verus!
