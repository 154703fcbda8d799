//! Compression levels: a validated integer in the closed range 1..=12.

use vstd::prelude::*;

verus! {

/// The smallest level accepted by [`CompressionLvl::new`].
pub const MIN_COMPRESSION_LVL: i32 = 1;

/// The largest level accepted by [`CompressionLvl::new`].
pub const MAX_COMPRESSION_LVL: i32 = 12;

/// Compression level used by a `Compressor` instance: an integer in the
/// closed range [`MIN_COMPRESSION_LVL`]..=[`MAX_COMPRESSION_LVL`], selecting
/// a speed/ratio tradeoff.  Immutable once constructed.
#[derive(Copy, Clone, PartialEq, Eq, Structural, Debug)]
pub struct CompressionLvl(i32);

/// Errors that can be returned when attempting to create a
/// [`CompressionLvl`] from a numeric value.
#[derive(Copy, Clone, PartialEq, Eq, Structural, Debug)]
pub enum CompressionLvlError {
    /// The given value lies outside the supported closed range.
    InvalidValue,
}

impl CompressionLvl {
    /// The numeric value of this level.
    pub closed spec fn spec_level(self) -> int {
        self.0 as int
    }

    /// A level is valid exactly when it lies in the supported closed range.
    pub open spec fn valid(self) -> bool {
        MIN_COMPRESSION_LVL as int <= self.spec_level() <= MAX_COMPRESSION_LVL as int
    }

    /// Try to create a valid [`CompressionLvl`] from a numeric value.
    ///
    /// Succeeds exactly on values in the supported closed range 1..=12;
    /// every other value is rejected with `InvalidValue`.
    pub fn new(level: i32) -> (r: Result<CompressionLvl, CompressionLvlError>)
        ensures
            MIN_COMPRESSION_LVL <= level <= MAX_COMPRESSION_LVL ==> {
                &&& r matches Ok(l)
                &&& l.spec_level() == level as int
                &&& l.valid()
            },
            !(MIN_COMPRESSION_LVL <= level <= MAX_COMPRESSION_LVL) ==> r == Err::<
                CompressionLvl,
                CompressionLvlError,
            >(CompressionLvlError::InvalidValue),
    {
        if MIN_COMPRESSION_LVL <= level && level <= MAX_COMPRESSION_LVL {
            Ok(CompressionLvl(level))
        } else {
            Err(CompressionLvlError::InvalidValue)
        }
    }

    /// Returns the fastest compression level: the low end of the range,
    /// with the highest throughput and the lowest compression ratio.
    pub fn fastest() -> (r: CompressionLvl)
        ensures
            r.spec_level() == MIN_COMPRESSION_LVL as int,
            r.valid(),
    {
        CompressionLvl(MIN_COMPRESSION_LVL)
    }

    /// Returns the best compression level, in terms of compression ratio:
    /// the high end of the range.
    pub fn best() -> (r: CompressionLvl)
        ensures
            r.spec_level() == MAX_COMPRESSION_LVL as int,
            r.valid(),
    {
        CompressionLvl(MAX_COMPRESSION_LVL)
    }

    /// Returns an iterator that emits every supported compression level in
    /// ascending order.
    pub fn iter() -> (r: CompressionLvlIter)
        ensures
            r.spec_next_level() == MIN_COMPRESSION_LVL as int,
    {
        CompressionLvlIter(MIN_COMPRESSION_LVL)
    }
}

impl Default for CompressionLvl {
    /// Returns the recommended middle-of-the-range default level.
    fn default() -> (r: CompressionLvl)
        ensures
            r.spec_level() == 6,
            r.valid(),
    {
        CompressionLvl(6)
    }
}

/// An iterator over the [`CompressionLvl`]s supported by the library, from
/// the level it currently stands on up to [`MAX_COMPRESSION_LVL`].
pub struct CompressionLvlIter(i32);

impl CompressionLvlIter {
    /// The level the iterator will emit next.
    pub closed spec fn spec_next_level(self) -> int {
        self.0 as int
    }

    /// Emits the next supported level, or `None` when the range is spent.
    pub fn next(&mut self) -> (r: Option<CompressionLvl>)
        ensures
            old(self).spec_next_level() <= MAX_COMPRESSION_LVL as int ==> {
                &&& r matches Some(l)
                &&& l.spec_level() == old(self).spec_next_level()
                &&& final(self).spec_next_level() == old(self).spec_next_level() + 1
            },
            old(self).spec_next_level() > MAX_COMPRESSION_LVL as int ==> {
                &&& r is None
                &&& final(self).spec_next_level() == old(self).spec_next_level()
            },
    {
        if self.0 <= MAX_COMPRESSION_LVL {
            let ret = Some(CompressionLvl(self.0));
            self.0 = self.0 + 1;
            ret
        } else {
            None
        }
    }
}

impl From<CompressionLvl> for i32 {
    /// Returns the numeric value of the level.
    fn from(level: CompressionLvl) -> (r: i32)
        ensures
            r as int == level.spec_level(),
    {
        level.0
    }
}

impl vstd::std_specs::convert::FromSpecImpl<CompressionLvl> for i32 {
    open spec fn obeys_from_spec() -> bool {
        true
    }

    open spec fn from_spec(level: CompressionLvl) -> i32 {
        level.spec_level() as i32
    }
}

impl<'a> From<&'a CompressionLvl> for i32 {
    /// Returns the numeric value of the level.
    fn from(level: &'a CompressionLvl) -> (r: i32)
        ensures
            r as int == level.spec_level(),
    {
        level.0
    }
}

impl<'a> vstd::std_specs::convert::FromSpecImpl<&'a CompressionLvl> for i32 {
    open spec fn obeys_from_spec() -> bool {
        true
    }

    open spec fn from_spec(level: &'a CompressionLvl) -> i32 {
        level.spec_level() as i32
    }
}

} // verus!
