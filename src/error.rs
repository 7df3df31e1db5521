use vstd::prelude::*;
use vstd::string::StringExecFns;

verus! {

/// What failed in the windowing and GPU layer.
#[derive(Clone, Debug)]
pub enum ErrorKind {
    Init,
    WindowCreation,
    RendererCreation,
    GpuDeviceCreation,
    ShaderCreation,
    BufferCreation,
    TextureCreation,
    TransferBufferCreation,
    TransferBufferMap,
    GraphicsPipelineCreation,
    ComputePipelineCreation,
    AcquireCommandBuffer,
    SubmitCommandBuffer,
    AcquireSwapchainTexture,
    Str(String),
}

/// An error of the windowing and GPU layer: what failed, and the message the
/// platform library gave for it (empty where it gave none).
#[derive(Clone, Debug)]
pub struct Error {
    kind: ErrorKind,
    sdl_error: String,
}

/// The line that names a kind of error, without its line break.
pub open spec fn kind_heading(k: ErrorKind) -> Seq<char> {
    match k {
        ErrorKind::Init => "failed to initialize SDL:"@,
        ErrorKind::WindowCreation => "failed to create window:"@,
        ErrorKind::RendererCreation => "failed to create renderer:"@,
        ErrorKind::GpuDeviceCreation => "failed to create gpu device:"@,
        ErrorKind::ShaderCreation => "failed to create shader:"@,
        ErrorKind::BufferCreation => "failed to create buffer:"@,
        ErrorKind::TextureCreation => "failed to create texture:"@,
        ErrorKind::TransferBufferCreation => "failed to create transfer buffer:"@,
        ErrorKind::TransferBufferMap => "failed to map transfer buffer to memory:"@,
        ErrorKind::GraphicsPipelineCreation => "failed to create graphics pipeline:"@,
        ErrorKind::ComputePipelineCreation => "failed to create compute pipeline:"@,
        ErrorKind::AcquireCommandBuffer => "failed to acquire gpu command buffer:"@,
        ErrorKind::AcquireSwapchainTexture => "failed to acquire gpu swapchain texture:"@,
        ErrorKind::SubmitCommandBuffer => "failed to submit gpu command buffer:"@,
        ErrorKind::Str(s) => s@ + ":"@,
    }
}

/// The full text of an error: a heading line, then the platform's message on
/// a line of its own.
pub open spec fn error_text(k: ErrorKind, sdl_error: Seq<char>) -> Seq<char> {
    "error: "@ + kind_heading(k) + "\n"@ + sdl_error + "\n"@
}

impl ErrorKind {
    /// An error with a message of its own, and the platform's message.
    pub fn new(message: String, sdl_error: String) -> (r: Error)
        ensures
            r.spec_kind() == ErrorKind::Str(message),
            r.spec_sdl_error() == sdl_error@,
    {
        ErrorKind::Str(message).open(sdl_error)
    }

    /// An error of this kind, with the platform's message.
    pub fn open(self, sdl_error: String) -> (r: Error)
        ensures
            r.spec_kind() == self,
            r.spec_sdl_error() == sdl_error@,
    {
        Error { kind: self, sdl_error }
    }

    /// The line that names this kind of error, without its line break.
    pub fn heading(&self) -> (r: String)
        ensures
            r@ == kind_heading(*self),
    {
        match self {
            ErrorKind::Init => "failed to initialize SDL:".to_owned(),
            ErrorKind::WindowCreation => "failed to create window:".to_owned(),
            ErrorKind::RendererCreation => "failed to create renderer:".to_owned(),
            ErrorKind::GpuDeviceCreation => "failed to create gpu device:".to_owned(),
            ErrorKind::ShaderCreation => "failed to create shader:".to_owned(),
            ErrorKind::BufferCreation => "failed to create buffer:".to_owned(),
            ErrorKind::TextureCreation => "failed to create texture:".to_owned(),
            ErrorKind::TransferBufferCreation => "failed to create transfer buffer:".to_owned(),
            ErrorKind::TransferBufferMap => "failed to map transfer buffer to memory:".to_owned(),
            ErrorKind::GraphicsPipelineCreation => "failed to create graphics pipeline:".to_owned(),
            ErrorKind::ComputePipelineCreation => "failed to create compute pipeline:".to_owned(),
            ErrorKind::AcquireCommandBuffer => "failed to acquire gpu command buffer:".to_owned(),
            ErrorKind::AcquireSwapchainTexture => "failed to acquire gpu swapchain texture:".to_owned(),
            ErrorKind::SubmitCommandBuffer => "failed to submit gpu command buffer:".to_owned(),
            ErrorKind::Str(s) => s.clone().concat(":"),
        }
    }
}

impl Error {
    pub closed spec fn spec_kind(self) -> ErrorKind {
        self.kind
    }

    pub closed spec fn spec_sdl_error(self) -> Seq<char> {
        self.sdl_error@
    }

    /// What failed.
    pub fn kind(&self) -> (r: &ErrorKind)
        ensures
            *r == self.spec_kind(),
    {
        &self.kind
    }

    /// The platform's message.
    pub fn sdl_error(&self) -> (r: &String)
        ensures
            r@ == self.spec_sdl_error(),
    {
        &self.sdl_error
    }

    /// The full text of the error, as it is shown to a user.
    pub fn message(&self) -> (r: String)
        ensures
            r@ == error_text(self.spec_kind(), self.spec_sdl_error()),
    {
        let mut text = "error: ".to_owned();
        text.append(self.kind.heading().as_str());
        text.append("\n");
        text.append(self.sdl_error.as_str());
        text.append("\n");
        text
    }
}

} // verus!
