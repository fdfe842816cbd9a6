[package]
name = "rs_internal_ue_palia"
version = "0.1.0"
edition = "2021"
publish = false

[dependencies]
once_cell = "1"
retour = { version = "0.3", features = ["static-detour"] }
windows = { version = "0.48", features = ["Win32_Foundation", "Win32_UI_Input_KeyboardAndMouse", "Win32_System_Console", "Win32_System_LibraryLoader"] }
