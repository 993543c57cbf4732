//! Logic behind the sub-views: the environment-variable form, the MCP server
//! form and the settings page's server list, the CTF challenge form and
//! panel, the providers' form cursor and model picker, the welcome screen
//! and the sessions panel.
pub mod ctf_edit_form;
pub mod ctf_panel;
pub mod env_form;
pub mod mcp_form;
pub mod providers;
pub mod sessions;
pub mod settings_page;
pub mod welcome;
