use vstd::prelude::*;

verus! {

/// A size in bytes.
#[derive(Debug, Clone, Copy, PartialEq, Eq, Structural)]
pub struct Bytes(pub usize);

/// A size in kilobytes of 1000 bytes.
#[derive(Debug, Clone, Copy, PartialEq, Eq, Structural)]
pub struct Kilobytes(pub usize);

/// A size in megabytes of 1000 kilobytes.
#[derive(Debug, Clone, Copy, PartialEq, Eq, Structural)]
pub struct Megabytes(pub usize);

/// A size that can be expressed in bytes.
pub trait ToBytes {
    /// The size in bytes.
    spec fn byte_count(&self) -> int;

    fn to_bytes(&self) -> (bytes: Bytes)
        requires
            0 <= self.byte_count() <= usize::MAX,
        ensures
            bytes.0 == self.byte_count(),
    ;
}

impl ToBytes for Bytes {
    open spec fn byte_count(&self) -> int {
        self.0 as int
    }

    fn to_bytes(&self) -> (bytes: Bytes)
        ensures
            bytes == *self,
    {
        *self
    }
}

impl ToBytes for Kilobytes {
    open spec fn byte_count(&self) -> int {
        self.0 * 1000
    }

    fn to_bytes(&self) -> (bytes: Bytes)
        ensures
            bytes.0 == self.0 * 1000,
    {
        let Kilobytes(kb) = *self;
        Bytes(kb * 1_000)
    }
}

impl ToBytes for Megabytes {
    open spec fn byte_count(&self) -> int {
        self.0 * 1000000
    }

    fn to_bytes(&self) -> (bytes: Bytes)
        ensures
            bytes.0 == self.0 * 1000000,
    {
        let Megabytes(mb) = *self;
        Bytes(mb * 1_000_000)
    }
}

/// A megabyte is a thousand kilobytes, and a kilobyte a thousand bytes.
pub proof fn law_size_units(n: usize)
    ensures
        Megabytes(n).byte_count() == (Kilobytes(n).byte_count()) * 1000,
        Kilobytes(n).byte_count() == Bytes(n).byte_count() * 1000,
        Bytes(n).byte_count() == n,
        Kilobytes(n).byte_count() == n * 1000,
        Megabytes(n).byte_count() == n * 1000000,
{
}

/// The settings an engine is built with.
#[derive(Debug, Clone, Copy, PartialEq, Eq, Structural)]
pub struct EngineSettings {
    /// The capacity of each pooled buffer.
    pub starting_buffer_size: Bytes,
    /// How many buffers and outboxes each pool starts with.
    pub buffer_pool_size: usize,
    /// How many buffers and outboxes each pool keeps at most.
    pub max_buffer_pool_size: usize,
}

impl EngineSettings {
    /// The settings of a new engine: 32 kilobyte buffers in pools of 32.
    pub fn new() -> (settings: EngineSettings)
        ensures
            settings.starting_buffer_size == Bytes(32000),
            settings.buffer_pool_size == 32,
            settings.max_buffer_pool_size == 32,
    {
        EngineSettings {
            starting_buffer_size: Kilobytes(32).to_bytes(),
            buffer_pool_size: 32,
            max_buffer_pool_size: 32,
        }
    }
}

/// An option that changes a value of type `T`, such as engine settings.
pub trait OptionSetter<T> {
    /// Whether the option can be applied.
    spec fn applicable(&self) -> bool;

    /// The value after the option is applied to `target`.
    spec fn applied(&self, target: T) -> T;

    fn set_option(self, target: T) -> (result: T)
        requires
            self.applicable(),
        ensures
            result == self.applied(target),
    ;
}

/// Sets the capacity of each pooled buffer.
pub struct InitialBufferSize<T: ToBytes>(pub T);

/// Sets how many buffers and outboxes each pool starts with.
#[derive(Debug, Clone, Copy, PartialEq, Eq, Structural)]
pub struct InitialBufferPoolSize(pub usize);

/// Sets how many buffers and outboxes each pool keeps at most.
#[derive(Debug, Clone, Copy, PartialEq, Eq, Structural)]
pub struct MaxBufferPoolSize(pub usize);

impl<T: ToBytes> OptionSetter<EngineSettings> for InitialBufferSize<T> {
    open spec fn applicable(&self) -> bool {
        0 <= self.0.byte_count() <= usize::MAX
    }

    open spec fn applied(&self, target: EngineSettings) -> EngineSettings {
        EngineSettings { starting_buffer_size: Bytes(self.0.byte_count() as usize), ..target }
    }

    fn set_option(self, target: EngineSettings) -> (result: EngineSettings)
        ensures
            result.starting_buffer_size.0 == self.0.byte_count(),
            result.buffer_pool_size == target.buffer_pool_size,
            result.max_buffer_pool_size == target.max_buffer_pool_size,
    {
        let InitialBufferSize(size) = self;
        let number_of_bytes: Bytes = size.to_bytes();
        let mut settings = target;
        settings.starting_buffer_size = number_of_bytes;
        settings
    }
}

impl OptionSetter<EngineSettings> for InitialBufferPoolSize {
    open spec fn applicable(&self) -> bool {
        true
    }

    open spec fn applied(&self, target: EngineSettings) -> EngineSettings {
        EngineSettings { buffer_pool_size: self.0, ..target }
    }

    fn set_option(self, target: EngineSettings) -> (result: EngineSettings)
        ensures
            result.buffer_pool_size == self.0,
            result.starting_buffer_size == target.starting_buffer_size,
            result.max_buffer_pool_size == target.max_buffer_pool_size,
    {
        let InitialBufferPoolSize(number_of_buffers) = self;
        let mut settings = target;
        settings.buffer_pool_size = number_of_buffers;
        settings
    }
}

impl OptionSetter<EngineSettings> for MaxBufferPoolSize {
    open spec fn applicable(&self) -> bool {
        true
    }

    open spec fn applied(&self, target: EngineSettings) -> EngineSettings {
        EngineSettings { max_buffer_pool_size: self.0, ..target }
    }

    fn set_option(self, target: EngineSettings) -> (result: EngineSettings)
        ensures
            result.max_buffer_pool_size == self.0,
            result.starting_buffer_size == target.starting_buffer_size,
            result.buffer_pool_size == target.buffer_pool_size,
    {
        let MaxBufferPoolSize(number_of_buffers) = self;
        let mut settings = target;
        settings.max_buffer_pool_size = number_of_buffers;
        settings
    }
}

/// Each option sets its own setting to the value it holds, the buffer size
/// in bytes, and leaves the other settings as they were.
pub proof fn law_option_sets_its_setting<T: ToBytes>(
    settings: EngineSettings,
    size: InitialBufferSize<T>,
    pool: InitialBufferPoolSize,
    max: MaxBufferPoolSize,
)
    ensures
        size.applicable() ==> size.applied(settings).starting_buffer_size.0 == size.0.byte_count(),
        size.applied(settings).buffer_pool_size == settings.buffer_pool_size,
        size.applied(settings).max_buffer_pool_size == settings.max_buffer_pool_size,
        pool.applied(settings).buffer_pool_size == pool.0,
        pool.applied(settings).starting_buffer_size == settings.starting_buffer_size,
        pool.applied(settings).max_buffer_pool_size == settings.max_buffer_pool_size,
        max.applied(settings).max_buffer_pool_size == max.0,
        max.applied(settings).starting_buffer_size == settings.starting_buffer_size,
        max.applied(settings).buffer_pool_size == settings.buffer_pool_size,
{
}

/// Options of different kinds can be applied in either order, and of two
/// options of one kind the one applied last wins.
pub proof fn law_options_commute_and_last_wins<T: ToBytes, U: ToBytes>(
    settings: EngineSettings,
    size: InitialBufferSize<T>,
    other_size: InitialBufferSize<U>,
    pool: InitialBufferPoolSize,
    other_pool: InitialBufferPoolSize,
    max: MaxBufferPoolSize,
    other_max: MaxBufferPoolSize,
)
    ensures
        pool.applied(max.applied(settings)) == max.applied(pool.applied(settings)),
        size.applied(pool.applied(settings)) == pool.applied(size.applied(settings)),
        size.applied(max.applied(settings)) == max.applied(size.applied(settings)),
        other_pool.applied(pool.applied(settings)) == other_pool.applied(settings),
        other_max.applied(max.applied(settings)) == other_max.applied(settings),
        other_size.applied(size.applied(settings)) == other_size.applied(settings),
{
}

} // verus!
