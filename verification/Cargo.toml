[package]
name = "raven"
version = "0.1.0"
edition = "2021"
publish = false

[dependencies]
smithay = { version = "*", default-features = false, features = ["backend_drm", "backend_gbm", "backend_egl", "backend_libinput", "backend_udev", "backend_session_libseat", "desktop", "renderer_gl", "renderer_multi", "wayland_frontend", "use_system_lib"] }
smithay-drm-extras = "*"
xkeysym = "*"
xcursor = "*"
bitflags = "*"
libc = "*"
tracing = "*"
tracing-appender = "*"
tracing-subscriber = { version = "*", features = ["env-filter"] }
