//! The command-recording encoder that passes write into.
use vstd::prelude::*;
use crate::types::Rgba;

verus! {

/// A range of vertices inside a vertex buffer.
#[derive(Clone, Copy, Debug, PartialEq, Eq)]
pub struct Geometry {
    pub vertex_buffer: u64,
    pub start: u32,
    pub end: u32,
}

/// The bindings and parameters of one draw call.
///
/// Constant buffers and samplers are named by their slot in the effect of
/// `program`; textures and outputs by their device handle.
#[derive(Debug, PartialEq, Eq)]
pub struct DrawCall {
    pub program: u64,
    pub geometry: Option<Geometry>,
    pub const_bufs: Vec<usize>,
    pub globals: Vec<u32>,
    pub samplers: Vec<usize>,
    pub textures: Vec<u64>,
    pub out_colors: Vec<u64>,
    pub out_depth: Option<u64>,
}

/// One recorded device command.
#[derive(Debug, PartialEq, Eq)]
pub enum Command {
    /// Fills a color buffer with one color.
    Clear { buffer: u64, color: Rgba },
    /// Fills a depth buffer with one depth value.
    ClearDepth { buffer: u64, depth: u32 },
    /// Fills the stencil part of a depth buffer with one value.
    ClearStencil { buffer: u64, value: u8 },
    /// Replaces the contents of a constant buffer of an effect.
    UpdateConstantBuffer { program: u64, slot: usize, data: Vec<u32> },
    /// Writes `data` into a buffer of an effect, starting at element `offset`.
    UpdateBuffer { program: u64, slot: usize, data: Vec<u32>, offset: usize },
    /// Issues one draw call.
    Draw(DrawCall),
}

pub struct DrawView {
    pub program: u64,
    pub geometry: Option<Geometry>,
    pub const_bufs: Seq<usize>,
    pub globals: Seq<u32>,
    pub samplers: Seq<usize>,
    pub textures: Seq<u64>,
    pub out_colors: Seq<u64>,
    pub out_depth: Option<u64>,
}

pub enum CommandView {
    Clear { buffer: u64, color: Rgba },
    ClearDepth { buffer: u64, depth: u32 },
    ClearStencil { buffer: u64, value: u8 },
    UpdateConstantBuffer { program: u64, slot: usize, data: Seq<u32> },
    UpdateBuffer { program: u64, slot: usize, data: Seq<u32>, offset: usize },
    Draw(DrawView),
}

impl View for DrawCall {
    type V = DrawView;

    open spec fn view(&self) -> DrawView {
        DrawView {
            program: self.program,
            geometry: self.geometry,
            const_bufs: self.const_bufs@,
            globals: self.globals@,
            samplers: self.samplers@,
            textures: self.textures@,
            out_colors: self.out_colors@,
            out_depth: self.out_depth,
        }
    }
}

impl View for Command {
    type V = CommandView;

    open spec fn view(&self) -> CommandView {
        match self {
            Command::Clear { buffer, color } => CommandView::Clear { buffer: *buffer, color: *color },
            Command::ClearDepth { buffer, depth } => CommandView::ClearDepth {
                buffer: *buffer,
                depth: *depth,
            },
            Command::ClearStencil { buffer, value } => CommandView::ClearStencil {
                buffer: *buffer,
                value: *value,
            },
            Command::UpdateConstantBuffer { program, slot, data } =>
                CommandView::UpdateConstantBuffer { program: *program, slot: *slot, data: data@ },
            Command::UpdateBuffer { program, slot, data, offset } => CommandView::UpdateBuffer {
                program: *program,
                slot: *slot,
                data: data@,
                offset: *offset,
            },
            Command::Draw(d) => CommandView::Draw(d@),
        }
    }
}

/// Records commands for later submission to the device.
///
/// An encoder is owned by one worker at a time; the pipeline hands each
/// concurrent chunk of work an encoder of its own.
#[derive(Debug)]
pub struct Encoder {
    commands: Vec<Command>,
}

impl View for Encoder {
    type V = Seq<CommandView>;

    closed spec fn view(&self) -> Seq<CommandView> {
        self.commands@.map_values(|c: Command| c@)
    }
}

impl Encoder {
    pub fn new() -> (e: Encoder)
        ensures
            e@ == Seq::<CommandView>::empty(),
    {
        let e = Encoder { commands: Vec::new() };
        assert(e@ =~= Seq::<CommandView>::empty());
        e
    }

    /// Records one command.
    pub fn record(&mut self, c: Command)
        ensures
            final(self)@ == old(self)@.push(c@),
    {
        self.commands.push(c);
        assert(final(self)@ =~= old(self)@.push(c@));
    }

    /// The number of recorded commands.
    pub fn len(&self) -> (n: usize)
        ensures
            n == self@.len(),
    {
        self.commands.len()
    }

    /// The recorded commands, oldest first.
    pub fn commands(&self) -> (r: &Vec<Command>)
        ensures
            r@.map_values(|c: Command| c@) == self@,
    {
        &self.commands
    }

    /// Hands the recorded commands over for submission and leaves the encoder empty.
    pub fn flush(&mut self) -> (r: Vec<Command>)
        ensures
            r@.map_values(|c: Command| c@) == old(self)@,
            final(self)@ == Seq::<CommandView>::empty(),
    {
        let mut r = Vec::new();
        std::mem::swap(&mut r, &mut self.commands);
        assert(final(self)@ =~= Seq::<CommandView>::empty());
        r
    }
}

} // verus!
