use vstd::prelude::*;

verus! {

/// The closed set of wire formats the codec supports.
#[derive(Clone, Copy, Debug, PartialEq, Eq, Structural)]
pub enum FormatKind {
    /// A human-readable, self-describing text encoding with quoting rules
    /// that round-trip every field value exactly.
    PlainText,
    /// A minimal binary encoding with an explicit length-prefixed field.
    CompactBinaryMap,
    /// A binary document format carrying its own field name and type tags.
    SelfDescribingDocument,
}

/// A deflate-family compression level: an integer on the scale 0 (no
/// compression) to 9 (best compression), with named presets.
#[derive(Clone, Copy, Debug)]
pub struct CompressionLevel {
    level: u32,
}

impl CompressionLevel {
    #[verifier::type_invariant]
    pub closed spec fn wf(self) -> bool {
        self.level <= 9
    }

    pub closed spec fn spec_level(self) -> u32 {
        self.level
    }

    /// A level chosen explicitly on the scale 0-9.
    pub fn new(level: u32) -> (r: CompressionLevel)
        requires
            level <= 9,
        ensures
            r.spec_level() == level,
    {
        CompressionLevel { level }
    }

    /// No compression.
    pub fn no_compression() -> (r: CompressionLevel)
        ensures
            r.spec_level() == 0,
    {
        CompressionLevel { level: 0 }
    }

    /// Optimize for encoding speed.
    pub fn fastest() -> (r: CompressionLevel)
        ensures
            r.spec_level() == 1,
    {
        CompressionLevel { level: 1 }
    }

    /// Optimize for the size of the compressed data.
    pub fn best() -> (r: CompressionLevel)
        ensures
            r.spec_level() == 9,
    {
        CompressionLevel { level: 9 }
    }

    /// The level as an integer, always on the scale 0-9.
    pub fn level(&self) -> (r: u32)
        ensures
            r == self.spec_level(),
            r <= 9,
    {
        proof {
            use_type_invariant(self);
        }
        self.level
    }
}

impl Default for CompressionLevel {
    /// The balanced default level.
    fn default() -> (r: CompressionLevel)
        ensures
            r.spec_level() == 6,
    {
        CompressionLevel { level: 6 }
    }
}

/// The immutable per-call configuration of the pipeline: which wire format
/// the codec uses and at which level the compressor runs.
#[derive(Clone, Copy, Debug)]
pub struct SerializerOptions {
    pub format: FormatKind,
    pub level: CompressionLevel,
}

impl SerializerOptions {
    pub fn new(format: FormatKind, level: CompressionLevel) -> (r: SerializerOptions)
        ensures
            r.format == format,
            r.level == level,
    {
        SerializerOptions { format, level }
    }
}

} // verus!
