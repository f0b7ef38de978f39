//! Linear framebuffers and an off-screen back buffer drawn into and then
//! copied to the screen.
pub mod framebuffer;
pub mod double_buffer;
