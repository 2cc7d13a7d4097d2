use vstd::prelude::*;

verus! {

// OpenGL's error codes, as `glGetError` reports them.

/// No error has been recorded.
pub const GL_NO_ERROR: u32 = 0;
pub const GL_INVALID_ENUM: u32 = 0x0500;
pub const GL_INVALID_VALUE: u32 = 0x0501;
pub const GL_INVALID_OPERATION: u32 = 0x0502;
pub const GL_STACK_OVERFLOW: u32 = 0x0503;
pub const GL_STACK_UNDERFLOW: u32 = 0x0504;
pub const GL_OUT_OF_MEMORY: u32 = 0x0505;
pub const GL_INVALID_FRAMEBUFFER_OPERATION: u32 = 0x0506;

/// The text that describes the OpenGL error code `e`.
pub open spec fn gl_error_text(e: u32) -> Seq<char> {
    if e == GL_NO_ERROR {
        "No error"@
    } else if e == GL_INVALID_ENUM {
        "Invalid enum"@
    } else if e == GL_INVALID_VALUE {
        "Invalid value"@
    } else if e == GL_INVALID_OPERATION {
        "Invalid operation"@
    } else if e == GL_INVALID_FRAMEBUFFER_OPERATION {
        "Invalid framebuffer operation"@
    } else if e == GL_OUT_OF_MEMORY {
        "Out of memory"@
    } else if e == GL_STACK_UNDERFLOW {
        "Stack underflow"@
    } else if e == GL_STACK_OVERFLOW {
        "Stack overflow"@
    } else {
        "Unknown error"@
    }
}

/// Describes the OpenGL error code `e`; the renderer reports any error other
/// than `GL_NO_ERROR` as fatal.
pub fn format_error(e: u32) -> (r: &'static str)
    ensures
        r@ == gl_error_text(e),
{
    if e == GL_NO_ERROR {
        "No error"
    } else if e == GL_INVALID_ENUM {
        "Invalid enum"
    } else if e == GL_INVALID_VALUE {
        "Invalid value"
    } else if e == GL_INVALID_OPERATION {
        "Invalid operation"
    } else if e == GL_INVALID_FRAMEBUFFER_OPERATION {
        "Invalid framebuffer operation"
    } else if e == GL_OUT_OF_MEMORY {
        "Out of memory"
    } else if e == GL_STACK_UNDERFLOW {
        "Stack underflow"
    } else if e == GL_STACK_OVERFLOW {
        "Stack overflow"
    } else {
        "Unknown error"
    }
}

} // verus!
