//! DRM: framebuffers, CRTCs, encoders and connectors, mode setting and page
//! flips; DSI panel commands; the MDP controller table.
pub mod mode_flags;
pub mod drm_core;
pub mod mipi_dsi;
pub mod msm_mdp;
