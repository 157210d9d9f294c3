use vstd::prelude::*;

verus! {

/// Why a renderer could not be created. Variants that wrap a failure of the
/// graphics or VR layer carry that failure's description.
#[derive(Debug, PartialEq, Eq)]
pub enum RendererCreationError {
    NoDevices,
    NoQueue,
    LayersListError(String),
    InstanceCreationError(String),
    DeviceCreationError(String),
    OomError(String),
    RenderPassCreationError(String),
    GraphicsPipelineCreationError(String),
    EyeCreationError(String),
}

/// Why a frame could not be rendered. Each variant carries the description
/// of the underlying failure.
#[derive(Debug, PartialEq, Eq)]
pub enum RenderError {
    OomError(String),
    BeginRenderPassError(String),
    DrawIndexedError(String),
    AutoCommandBufferBuilderContextError(String),
    BuildError(String),
    CommandBufferExecError(String),
    CompositorError(String),
    FlushError(String),
}

} // verus!
