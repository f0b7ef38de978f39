//! Display pipeline: DRM/KMS objects, MIPI DSI panels and the MDP display
//! controller.
pub mod drm;
