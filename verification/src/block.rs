//! Options and errors of the block device, and copy-on-write overlays.

use vm_memory::GuestMemoryError;
use vstd::prelude::*;

verus! {

/// Size of the configuration space in bytes.
pub const CONFIG_SPACE_SIZE: usize = 8;

/// Sectors hold two to this power bytes.
pub const SECTOR_SHIFT: u8 = 9;

/// Bytes in a sector.
pub const SECTOR_SIZE: u64 = 512;

/// Descriptors in the queue.
pub const QUEUE_SIZE: u16 = 256;

/// Queues of the device.
pub const NUM_QUEUES: usize = 1;

/// A sector holds two to the power of the shift bytes.
pub proof fn law_sector_size()
    ensures
        SECTOR_SIZE == 1u64 << SECTOR_SHIFT,
{
    assert(1u64 << 9u8 == 512) by (bit_vector);
}

/// Configuration of one queue.
#[derive(Clone, Copy, Debug, PartialEq, Eq, Structural)]
pub struct QueueConfig {
    /// Descriptors in the queue.
    pub size: u16,
}

/// Configuration of the queues of the device.
pub fn queue_config() -> (config: [QueueConfig; NUM_QUEUES])
    ensures
        config@ == seq![QueueConfig { size: 256 }],
{
    let config: [QueueConfig; NUM_QUEUES] = [QueueConfig { size: QUEUE_SIZE }];
    assert(config@ =~= seq![QueueConfig { size: 256 }]);
    config
}

/// The I/O error of std.
#[verifier::external_type_specification]
#[verifier::external_body]
pub struct ExIoError(std::io::Error);

/// The guest-memory error of `vm_memory`.
#[verifier::external_type_specification]
#[verifier::external_body]
pub struct ExGuestMemoryError(GuestMemoryError);

/// Why a request of the guest could not be served.
#[derive(Debug)]
pub enum Error {
    /// Guest gave us too few descriptors in a descriptor chain.
    DescriptorChainTooShort,
    /// Guest gave us a descriptor that was too short to use.
    DescriptorLengthTooSmall,
    /// Getting a block's metadata fails for any reason.
    GetFileMetadata(std::io::Error),
    /// Guest gave us bad memory addresses.
    GuestMemory(GuestMemoryError),
    /// The requested operation would cause a seek beyond disk end.
    InvalidOffset,
    /// Guest gave us a read only descriptor that protocol says to write to.
    UnexpectedReadOnlyDescriptor,
    /// Guest gave us a write only descriptor that protocol says to read from.
    UnexpectedWriteOnlyDescriptor,
}

/// Supported disk image formats
#[derive(Clone, Debug, PartialEq, Eq, Structural)]
pub enum ImageType {
    Raw,
    Qcow2,
    Vmdk,
}

impl vstd::std_specs::convert::TryFromSpecImpl<u32> for ImageType {
    open spec fn obeys_try_from_spec() -> bool {
        true
    }

    open spec fn try_from_spec(disk_format: u32) -> Result<Self, ()> {
        if disk_format == 0 {
            Ok(ImageType::Raw)
        } else if disk_format == 1 {
            Ok(ImageType::Qcow2)
        } else if disk_format == 2 {
            Ok(ImageType::Vmdk)
        } else {
            Err(())
        }
    }
}

impl TryFrom<u32> for ImageType {
    type Error = ();

    fn try_from(disk_format: u32) -> (r: Result<Self, ()>)
        ensures
            r == Ok::<ImageType, ()>(ImageType::Raw) <==> disk_format == 0,
            r == Ok::<ImageType, ()>(ImageType::Qcow2) <==> disk_format == 1,
            r == Ok::<ImageType, ()>(ImageType::Vmdk) <==> disk_format == 2,
            r is Err <==> disk_format > 2,
    {
        match disk_format {
            0 => Ok(ImageType::Raw),
            1 => Ok(ImageType::Qcow2),
            2 => Ok(ImageType::Vmdk),
            _ => {
                // Do not continue if the user cannot specify a valid disk format
                Err(())
            },
        }
    }
}

/// How writes reach the disk.
#[derive(Clone, Debug, PartialEq, Eq, Structural)]
pub enum SyncMode {
    /// No synchronization.
    NoSync,
    Relaxed,
    /// The default.
    Full,
}

impl Default for SyncMode {
    fn default() -> (mode: Self)
        ensures
            mode == SyncMode::Full,
    {
        SyncMode::Full
    }
}

impl vstd::std_specs::convert::TryFromSpecImpl<u32> for SyncMode {
    open spec fn obeys_try_from_spec() -> bool {
        true
    }

    open spec fn try_from_spec(sync_mode: u32) -> Result<Self, ()> {
        if sync_mode == 0 {
            Ok(SyncMode::NoSync)
        } else if sync_mode == 1 {
            Ok(SyncMode::Relaxed)
        } else if sync_mode == 2 {
            Ok(SyncMode::Full)
        } else {
            Err(())
        }
    }
}

impl TryFrom<u32> for SyncMode {
    type Error = ();

    fn try_from(sync_mode: u32) -> (r: Result<Self, ()>)
        ensures
            r == Ok::<SyncMode, ()>(SyncMode::NoSync) <==> sync_mode == 0,
            r == Ok::<SyncMode, ()>(SyncMode::Relaxed) <==> sync_mode == 1,
            r == Ok::<SyncMode, ()>(SyncMode::Full) <==> sync_mode == 2,
            r is Err <==> sync_mode > 2,
    {
        match sync_mode {
            0 => Ok(SyncMode::NoSync),
            1 => Ok(SyncMode::Relaxed),
            2 => Ok(SyncMode::Full),
            _ => {
                // Do not continue if the user cannot specify a valid sync mode
                Err(())
            },
        }
    }
}

/// Each disk image format and each sync mode has one number, and no other number
/// is accepted.
pub proof fn law_option_numbers(code: u32)
    ensures
        ({
            let image = <ImageType as vstd::std_specs::convert::TryFromSpec<u32>>::try_from_spec(
                code,
            );
            &&& image == Ok::<ImageType, ()>(ImageType::Raw) <==> code == 0
            &&& image == Ok::<ImageType, ()>(ImageType::Qcow2) <==> code == 1
            &&& image == Ok::<ImageType, ()>(ImageType::Vmdk) <==> code == 2
            &&& image is Err <==> code > 2
        }),
        ({
            let mode = <SyncMode as vstd::std_specs::convert::TryFromSpec<u32>>::try_from_spec(
                code,
            );
            &&& mode == Ok::<SyncMode, ()>(SyncMode::NoSync) <==> code == 0
            &&& mode == Ok::<SyncMode, ()>(SyncMode::Relaxed) <==> code == 1
            &&& mode == Ok::<SyncMode, ()>(SyncMode::Full) <==> code == 2
            &&& mode is Err <==> code > 2
        }),
{
}

/// The numbers of the device: bytes of its configuration space, queues, and
/// descriptors and bytes that they stand for.
pub proof fn law_device_layout()
    ensures
        CONFIG_SPACE_SIZE == 8,
        SECTOR_SHIFT == 9,
        SECTOR_SIZE == 512,
        QUEUE_SIZE == 256,
        NUM_QUEUES == 1,
{
}

/// What a qcow2 overlay is made from.
#[derive(Clone, Debug, PartialEq, Eq)]
pub struct OverlayRequest {
    /// Where the overlay is made.
    pub overlay_path: String,
    /// The image that reads fall through to.
    pub backing_path: String,
    /// The format of the backing image.
    pub backing_format: String,
    /// Bytes of the virtual disk.
    pub size: u64,
}

impl OverlayRequest {
    /// Whether this is the request for an overlay at `overlay_path` on the raw
    /// image at `backing_path`, `size` bytes long.
    pub open spec fn is_for(
        self,
        overlay_path: Seq<char>,
        backing_path: Seq<char>,
        size: u64,
    ) -> bool {
        &&& self.overlay_path@ == overlay_path
        &&& self.backing_path@ == backing_path
        &&& self.backing_format@ == "raw"@
        &&& self.size == size
    }
}

/// What to do next to make an overlay.
pub enum OverlayStep<E> {
    /// Create the file at the overlay path, cutting it to length zero, so that
    /// it can be opened for writing.
    TruncateFile(OverlayRequest),
    /// Open the file at the overlay path for writing.
    OpenFile(OverlayRequest),
    /// Build the runtime on which the image is written.
    StartRuntime(OverlayRequest),
    /// Write the empty image with its backing reference and size.
    WriteImage(OverlayRequest),
    /// The overlay is there.
    Done,
    /// The overlay could not be made.
    Failed(E),
}

/// The step that follows `step` once it came out as `reply`.
pub open spec fn overlay_after<E>(step: OverlayStep<E>, reply: Result<(), E>) -> OverlayStep<E> {
    match (step, reply) {
        (OverlayStep::Done, _) => step,
        (OverlayStep::Failed(_), _) => step,
        (_, Err(e)) => OverlayStep::Failed(e),
        (OverlayStep::TruncateFile(request), Ok(_)) => OverlayStep::OpenFile(request),
        (OverlayStep::OpenFile(request), Ok(_)) => OverlayStep::StartRuntime(request),
        (OverlayStep::StartRuntime(request), Ok(_)) => OverlayStep::WriteImage(request),
        (OverlayStep::WriteImage(_), Ok(_)) => OverlayStep::Done,
    }
}

/// The step reached from `step` by `replies`, one after the other.
pub open spec fn overlay_run<E>(step: OverlayStep<E>, replies: Seq<Result<(), E>>) -> OverlayStep<E>
    decreases replies.len(),
{
    if replies.len() == 0 {
        step
    } else {
        overlay_after(overlay_run(step, replies.drop_last()), replies.last())
    }
}

/// Create a qcow2 copy-on-write overlay at `overlay_path` backed by the raw
/// image at `backing_path` (of `virtual_size` bytes). The overlay starts empty:
/// reads fall through to the backing, writes land in the overlay.
///
/// The returned step is performed by the caller, who hands its outcome to
/// [`OverlayStep::reply`] until the overlay is done or has failed.
pub fn create_qcow2_overlay<E>(overlay_path: &str, backing_path: &str, virtual_size: u64) -> (step:
    OverlayStep<E>)
    ensures
        step matches OverlayStep::TruncateFile(request) && request.is_for(
            overlay_path@,
            backing_path@,
            virtual_size,
        ),
        step matches OverlayStep::TruncateFile(request) && {
            &&& request.overlay_path@ == overlay_path@
            &&& request.backing_path@ == backing_path@
            &&& request.backing_format@ == "raw"@
            &&& request.size == virtual_size
        },
{
    OverlayStep::TruncateFile(
        OverlayRequest {
            overlay_path: overlay_path.to_owned(),
            backing_path: backing_path.to_owned(),
            backing_format: "raw".to_owned(),
            size: virtual_size,
        },
    )
}

impl<E> OverlayStep<E> {
    /// Takes the outcome of this step to the next one.
    pub fn reply(self, reply: Result<(), E>) -> (next: Self)
        ensures
            next == overlay_after(self, reply),
            match (self, reply) {
                (OverlayStep::TruncateFile(request), Ok(_)) => next == OverlayStep::<E>::OpenFile(
                    request,
                ),
                (OverlayStep::OpenFile(request), Ok(_)) => next == OverlayStep::<E>::StartRuntime(
                    request,
                ),
                (OverlayStep::StartRuntime(request), Ok(_)) => next
                    == OverlayStep::<E>::WriteImage(request),
                (OverlayStep::WriteImage(_), Ok(_)) => next is Done,
                (OverlayStep::Done, _) => next is Done,
                (OverlayStep::Failed(e), _) => next == OverlayStep::Failed(e),
                (_, Err(e)) => next == OverlayStep::Failed(e),
            },
    {
        match (self, reply) {
            (OverlayStep::Done, _) => OverlayStep::Done,
            (OverlayStep::Failed(e), _) => OverlayStep::Failed(e),
            (_, Err(e)) => OverlayStep::Failed(e),
            (OverlayStep::TruncateFile(request), Ok(())) => OverlayStep::OpenFile(request),
            (OverlayStep::OpenFile(request), Ok(())) => OverlayStep::StartRuntime(request),
            (OverlayStep::StartRuntime(request), Ok(())) => OverlayStep::WriteImage(request),
            (OverlayStep::WriteImage(_), Ok(())) => OverlayStep::Done,
        }
    }
}

/// The text of the error for a runtime that could not be built.
pub fn runtime_error_text(cause: &str) -> (text: String)
    ensures
        text@ == "tokio runtime: "@ + cause@,
{
    let mut text: String = "tokio runtime: ".to_owned();
    text.append(cause);
    text
}

/// A request is for an overlay exactly where it has its path, the path of its
/// backing image, its size, and raw as the format of the backing.
pub proof fn law_overlay_request(
    request: OverlayRequest,
    overlay_path: Seq<char>,
    backing_path: Seq<char>,
    size: u64,
)
    ensures
        request.is_for(overlay_path, backing_path, size) <==> request.overlay_path@ == overlay_path
            && request.backing_path@ == backing_path && request.backing_format@ == "raw"@
            && request.size == size,
{
}

/// While every step succeeds, the file is created, then opened, then the
/// runtime is built, then the image is written, all on the request that the run
/// began with; with that the overlay is done.
pub proof fn law_overlay_steps<E>(request: OverlayRequest, replies: Seq<Result<(), E>>)
    requires
        forall|i: int| 0 <= i < replies.len() ==> (#[trigger] replies[i]) is Ok,
    ensures
        overlay_run(OverlayStep::TruncateFile(request), replies) == if replies.len() == 0 {
            OverlayStep::<E>::TruncateFile(request)
        } else if replies.len() == 1 {
            OverlayStep::OpenFile(request)
        } else if replies.len() == 2 {
            OverlayStep::StartRuntime(request)
        } else if replies.len() == 3 {
            OverlayStep::WriteImage(request)
        } else {
            OverlayStep::Done
        },
    decreases replies.len(),
{
    if replies.len() > 0 {
        assert(replies[replies.len() - 1] is Ok);
        law_overlay_steps(request, replies.drop_last());
    }
}

/// The first step that fails ends the run with its error, whatever else is
/// replied.
pub proof fn law_overlay_stops_at_failure<E>(
    request: OverlayRequest,
    replies: Seq<Result<(), E>>,
    k: int,
    e: E,
)
    requires
        0 <= k < replies.len(),
        k < 4,
        replies[k] == Err::<(), E>(e),
        forall|i: int| 0 <= i < k ==> (#[trigger] replies[i]) is Ok,
    ensures
        overlay_run(OverlayStep::TruncateFile(request), replies) == OverlayStep::Failed(e),
    decreases replies.len(),
{
    if k == replies.len() - 1 {
        law_overlay_steps(request, replies.drop_last());
    } else {
        law_overlay_stops_at_failure(request, replies.drop_last(), k, e);
    }
}

} // verus!
