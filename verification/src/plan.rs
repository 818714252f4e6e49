//! What one search asks of the accelerator: a device, three buffers, and
//! one compute pass over a fixed grid of workgroups followed by one copy.
//!
//! The host code that owns the device turns these plans into device calls;
//! nothing here touches a device.

use crate::bytes::{all_zero, in_memory, to_bytes, SLOT_BYTES, WORD_BYTES};
use crate::slots::SLOT_WORDS;
use vstd::prelude::*;

verus! {

/// The candidates along each axis of the search domain.
pub const DOMAIN_X: u32 = 1024;

pub const DOMAIN_Y: u32 = 1024;

pub const DOMAIN_Z: u32 = 4096;

/// The candidates that one workgroup covers along each axis.
pub const GROUP_X: u32 = 4;

pub const GROUP_Y: u32 = 4;

pub const GROUP_Z: u32 = 16;

/// The binding at which the kernel reads the key.
pub const INPUT_BINDING: u32 = 0;

/// The binding at which the kernel writes the output slots.
pub const OUTPUT_BINDING: u32 = 1;

/// The bind group that holds both bindings.
pub const BIND_GROUP: u32 = 0;

/// The uses that a buffer is created for.
#[derive(Clone, Copy, PartialEq, Eq, Debug)]
pub struct BufferUsage {
    /// The host may map the buffer and read it.
    pub map_read: bool,
    /// A copy may read from the buffer.
    pub copy_src: bool,
    /// A copy may write to the buffer.
    pub copy_dst: bool,
    /// The kernel may bind the buffer as storage.
    pub storage: bool,
}

/// One buffer to create: its length, what it holds at first, and its uses.
#[derive(Clone, Copy, PartialEq, Eq, Debug)]
pub struct BufferPlan {
    /// The length in words.
    pub words: u32,
    /// The value that every word holds at creation; `None` for a buffer
    /// that is created without contents.
    pub fill: Option<u32>,
    /// The uses of the buffer.
    pub usage: BufferUsage,
}

/// The three buffers of one search.
#[derive(Clone, Copy, PartialEq, Eq, Debug)]
pub struct BufferLayout {
    /// Where the host reads the output slots from.
    pub staging: BufferPlan,
    /// Where the kernel reads the key from.
    pub input: BufferPlan,
    /// Where the kernel writes the output slots.
    pub output: BufferPlan,
}

/// A number of workgroups along each axis.
#[derive(Clone, Copy, PartialEq, Eq, Debug)]
pub struct GridSize {
    pub x: u32,
    pub y: u32,
    pub z: u32,
}

/// One of the three buffers of a search.
#[derive(Clone, Copy, PartialEq, Eq, Debug)]
pub enum BufferRole {
    Staging,
    Input,
    Output,
}

/// How the device is asked for.
#[derive(Clone, Copy, PartialEq, Eq, Debug)]
pub struct SessionRequest {
    /// Whether any optional feature of the adapter is asked for.
    pub optional_features: bool,
    /// Whether the limits asked for are the conservative ones, which every
    /// adapter that can compute grants.
    pub conservative_limits: bool,
}

/// A compute pass: the kernel run once over a grid of workgroups.
#[derive(Clone, Copy, PartialEq, Eq, Debug)]
pub struct ComputePass {
    /// The bind group that the pass sets.
    pub bind_group: u32,
    /// The binding of the input buffer.
    pub input_binding: u32,
    /// The binding of the output buffer.
    pub output_binding: u32,
    /// The workgroups to dispatch.
    pub grid: GridSize,
}

/// A copy from one buffer to another.
#[derive(Clone, Copy, PartialEq, Eq, Debug)]
pub struct BufferCopy {
    pub source: BufferRole,
    /// Where in the source the copy starts, in bytes.
    pub source_offset: u64,
    pub destination: BufferRole,
    /// Where in the destination the copy starts, in bytes.
    pub destination_offset: u64,
    /// The number of bytes to copy.
    pub bytes: u64,
}

/// One command of a submission.
#[derive(Clone, Copy, PartialEq, Eq, Debug)]
pub enum Command {
    Compute(ComputePass),
    Copy(BufferCopy),
}

/// What one search submits to the queue: one compute pass, and one copy
/// that follows it.
#[derive(Clone, Copy, PartialEq, Eq, Debug)]
pub struct DispatchPlan {
    pub pass: ComputePass,
    pub copy: BufferCopy,
}

impl BufferUsage {
    /// Whether a buffer with these uses can be mapped for reading: beside
    /// that, it may only be the destination of copies.
    pub open spec fn host_readable(self) -> bool {
        self.map_read && self.copy_dst && !self.copy_src && !self.storage
    }
}

impl BufferPlan {
    /// The length in bytes.
    pub open spec fn size_spec(self) -> nat {
        WORD_BYTES as nat * self.words as nat
    }

    /// The words that the buffer holds at creation, if it holds any.
    pub open spec fn initial_spec(self) -> Option<Seq<u32>> {
        match self.fill {
            Some(value) => Some(Seq::new(self.words as nat, |i: int| value)),
            None => None,
        }
    }

    /// The length in bytes.
    pub fn size(self) -> (bytes: u64)
        ensures
            bytes == self.size_spec(),
    {
        WORD_BYTES as u64 * self.words as u64
    }

    /// The words that the buffer holds at creation; `None` for a buffer
    /// that is created without contents.
    pub fn initial_words(self) -> (initial: Option<Vec<u32>>)
        ensures
            initial is Some <==> self.fill is Some,
            initial matches Some(words) ==> Some(words@) == self.initial_spec(),
    {
        match self.fill {
            None => None,
            Some(value) => {
                let mut words: Vec<u32> = Vec::new();
                let mut i: u32 = 0;
                while i < self.words
                    invariant
                        i <= self.words,
                        words@ == Seq::new(i as nat, |j: int| value),
                    decreases self.words - i,
                {
                    words.push(value);
                    i += 1;
                    assert(words@ =~= Seq::new(i as nat, |j: int| value));
                }
                Some(words)
            },
        }
    }

    /// The bytes that the buffer is created with: its initial words as
    /// memory holds them, so as many bytes as the buffer is long; `None`
    /// for a buffer that is created without contents. A buffer filled with
    /// zero gets zero bytes only.
    pub fn contents(self) -> (contents: Option<Vec<u8>>)
        ensures
            contents is Some <==> self.fill is Some,
            contents matches Some(bytes) ==> {
                &&& in_memory(self.initial_spec()->0, bytes@)
                &&& bytes@.len() == self.size_spec()
                &&& self.fill == Some(0u32) ==> all_zero(bytes@)
            },
    {
        match self.initial_words() {
            None => None,
            Some(words) => Some(to_bytes(words.as_slice())),
        }
    }
}

/// The buffers of a search for `key`.
///
/// The staging buffer is as long as the output slots, takes copies and can
/// be mapped for reading. The input buffer holds the key. The output
/// buffer holds the slots, all zero, so that a kernel that finds nothing
/// leaves a count of zero; copies read from it.
pub open spec fn buffer_layout(key: u32) -> BufferLayout {
    BufferLayout {
        staging: BufferPlan {
            words: SLOT_WORDS as u32,
            fill: None,
            usage: BufferUsage { map_read: true, copy_src: false, copy_dst: true, storage: false },
        },
        input: BufferPlan {
            words: 1,
            fill: Some(key),
            usage: BufferUsage { map_read: false, copy_src: false, copy_dst: true, storage: true },
        },
        output: BufferPlan {
            words: SLOT_WORDS as u32,
            fill: Some(0u32),
            usage: BufferUsage { map_read: false, copy_src: true, copy_dst: true, storage: true },
        },
    }
}

/// The grid that covers the search domain, one workgroup for each block of
/// candidates.
pub open spec fn dispatch_grid() -> GridSize {
    GridSize {
        x: (DOMAIN_X / GROUP_X) as u32,
        y: (DOMAIN_Y / GROUP_Y) as u32,
        z: (DOMAIN_Z / GROUP_Z) as u32,
    }
}

/// The device request of a search: no optional features, conservative
/// limits.
pub open spec fn session_request() -> SessionRequest {
    SessionRequest { optional_features: false, conservative_limits: true }
}

/// The submission of a search: a pass with the input buffer at the first
/// binding and the output buffer at the second, over the grid of the whole
/// domain; then a copy of all of the output buffer to the staging buffer.
pub open spec fn dispatch_plan() -> DispatchPlan {
    DispatchPlan {
        pass: ComputePass {
            bind_group: BIND_GROUP,
            input_binding: INPUT_BINDING,
            output_binding: OUTPUT_BINDING,
            grid: dispatch_grid(),
        },
        copy: BufferCopy {
            source: BufferRole::Output,
            source_offset: 0,
            destination: BufferRole::Staging,
            destination_offset: 0,
            bytes: SLOT_BYTES as u64,
        },
    }
}

impl DispatchPlan {
    /// The commands in the order in which they are recorded: the pass
    /// first, the copy after it.
    pub open spec fn commands_spec(self) -> Seq<Command> {
        seq![Command::Compute(self.pass), Command::Copy(self.copy)]
    }

    /// The commands to record, in order: the pass, then the copy, so that
    /// the copy moves what the pass wrote.
    pub fn commands(self) -> (commands: Vec<Command>)
        ensures
            commands@ == self.commands_spec(),
    {
        let mut commands: Vec<Command> = Vec::new();
        commands.push(Command::Compute(self.pass));
        commands.push(Command::Copy(self.copy));
        assert(commands@ =~= self.commands_spec());
        commands
    }
}

/// Plans the device request.
pub fn plan_session() -> (request: SessionRequest)
    ensures
        request == session_request(),
{
    SessionRequest { optional_features: false, conservative_limits: true }
}

/// Plans the three buffers of a search for `key`.
pub fn plan_buffers(key: u32) -> (layout: BufferLayout)
    ensures
        layout == buffer_layout(key),
{
    BufferLayout {
        staging: BufferPlan {
            words: SLOT_WORDS as u32,
            fill: None,
            usage: BufferUsage { map_read: true, copy_src: false, copy_dst: true, storage: false },
        },
        input: BufferPlan {
            words: 1,
            fill: Some(key),
            usage: BufferUsage { map_read: false, copy_src: false, copy_dst: true, storage: true },
        },
        output: BufferPlan {
            words: SLOT_WORDS as u32,
            fill: Some(0),
            usage: BufferUsage { map_read: false, copy_src: true, copy_dst: true, storage: true },
        },
    }
}

/// Plans the compute pass and the copy that follows it.
pub fn plan_dispatch() -> (plan: DispatchPlan)
    ensures
        plan == dispatch_plan(),
{
    DispatchPlan {
        pass: ComputePass {
            bind_group: BIND_GROUP,
            input_binding: INPUT_BINDING,
            output_binding: OUTPUT_BINDING,
            grid: GridSize { x: DOMAIN_X / GROUP_X, y: DOMAIN_Y / GROUP_Y, z: DOMAIN_Z / GROUP_Z },
        },
        copy: BufferCopy {
            source: BufferRole::Output,
            source_offset: 0,
            destination: BufferRole::Staging,
            destination_offset: 0,
            bytes: SLOT_BYTES as u64,
        },
    }
}

/// The grid covers the domain exactly: along each axis the workgroups
/// times the candidates of one workgroup give the candidates of the
/// domain, and the domain holds one candidate for each 32-bit value.
pub proof fn lemma_grid_covers_domain()
    ensures
        dispatch_grid().x * GROUP_X == DOMAIN_X,
        dispatch_grid().y * GROUP_Y == DOMAIN_Y,
        dispatch_grid().z * GROUP_Z == DOMAIN_Z,
        DOMAIN_X * DOMAIN_Y * DOMAIN_Z == u32::MAX + 1,
        (dispatch_grid().x * dispatch_grid().y * dispatch_grid().z) * (GROUP_X * GROUP_Y
            * GROUP_Z) == u32::MAX + 1,
{
    let grid = dispatch_grid();
    assert(grid.x == 256 && grid.y == 256 && grid.z == 256);
    assert((grid.x * grid.y * grid.z) * (GROUP_X * GROUP_Y * GROUP_Z) == 0x1_0000_0000int)
        by (nonlinear_arith)
        requires
            grid.x == 256 && grid.y == 256 && grid.z == 256,
            GROUP_X == 4 && GROUP_Y == 4 && GROUP_Z == 16,
    ;
}

/// The buffers suit the submission, whatever the key: the copy takes all
/// of the output buffer and fills all of the staging buffer, the staging
/// buffer can be mapped for reading, the copy may read the output buffer,
/// the kernel may bind the input and the output buffer, at two bindings,
/// the input buffer holds the key and nothing else, and the output buffer
/// starts all zero.
pub proof fn lemma_layout_suits_dispatch(key: u32)
    ensures
        dispatch_plan().copy.source == BufferRole::Output,
        dispatch_plan().copy.destination == BufferRole::Staging,
        dispatch_plan().copy.source_offset == 0 && dispatch_plan().copy.destination_offset == 0,
        dispatch_plan().copy.bytes == buffer_layout(key).output.size_spec(),
        dispatch_plan().copy.bytes == buffer_layout(key).staging.size_spec(),
        dispatch_plan().copy.bytes == WORD_BYTES * SLOT_WORDS,
        buffer_layout(key).staging.usage.host_readable(),
        buffer_layout(key).staging.initial_spec() is None,
        buffer_layout(key).output.usage.copy_src,
        buffer_layout(key).output.usage.storage,
        buffer_layout(key).input.usage.storage,
        dispatch_plan().pass.input_binding != dispatch_plan().pass.output_binding,
        buffer_layout(key).input.initial_spec() == Some(seq![key]),
        buffer_layout(key).output.initial_spec() == Some(
            Seq::new(SLOT_WORDS as nat, |i: int| 0u32),
        ),
{
    assert(buffer_layout(key).input.initial_spec()->0 =~= seq![key]);
}

/// A submission holds exactly one pass, and the copy comes after it.
pub proof fn lemma_pass_precedes_copy(plan: DispatchPlan)
    ensures
        plan.commands_spec().len() == 2,
        plan.commands_spec()[0] == Command::Compute(plan.pass),
        plan.commands_spec()[1] == Command::Copy(plan.copy),
{
}

} // verus!
