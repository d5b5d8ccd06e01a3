//! User-facing configuration: model names, persona, history window and the
//! permission policy.  Reading and writing the settings file is I/O and lives
//! outside the library; this module holds the values and their defaults.

use vstd::prelude::*;
use crate::permissions::{PermissionSettings, ToolCategory, category_granted};

verus! {

/// The application settings the core reads.
#[derive(Debug, Clone)]
pub struct Settings {
    pub api_key: Option<String>,
    pub chat_model: String,
    pub summary_model: String,
    pub persona: String,
    pub force_tool_use_instruction: Option<String>,
    pub project_folder: Option<String>,
    /// How many recent messages the prompt builder keeps.
    pub chat_history_length: usize,
    pub show_tray_icon: bool,
    pub global_hotkey: String,
    pub permission_settings: PermissionSettings,
}

pub open spec fn default_persona_text() -> Seq<char> {
    "You are Hobbes, a helpful AI assistant."@
}

impl Default for Settings {
    /// The out-of-the-box configuration: tool use is forced and auto-approved
    /// for tool-server calls, and the prompt keeps the last eight messages.
    fn default() -> (r: Settings)
        ensures
            r.api_key is None,
            r.chat_model@ == "gemini-2.5-pro"@,
            r.summary_model@ == "gemini-1.5-flash-latest"@,
            r.persona@ == default_persona_text(),
            r.force_tool_use_instruction is Some,
            r.project_folder is None,
            r.chat_history_length == 8,
            r.show_tray_icon,
            r.global_hotkey@ == "CmdOrCtrl+Shift+H"@,
            r.permission_settings.auto_approval_enabled,
            category_granted(r.permission_settings.granular_permissions@, ToolCategory::Mcp),
            r.permission_settings.max_requests == 25,
            r.permission_settings.max_cost_cents == 100,
    {
        let mut granular_permissions: Vec<(ToolCategory, bool)> = Vec::new();
        granular_permissions.push((ToolCategory::Mcp, true));
        proof {
            assert(granular_permissions@[0] == (ToolCategory::Mcp, true));
        }
        Settings {
            api_key: None,
            chat_model: "gemini-2.5-pro".to_owned(),
            summary_model: "gemini-1.5-flash-latest".to_owned(),
            persona: "You are Hobbes, a helpful AI assistant.".to_owned(),
            force_tool_use_instruction: Some(
                "You must always use the provided tools to answer the user's request, even if you think you know the answer. Do not answer from your own knowledge base when tools are available. When using the fetch tool, you MUST provide markdown links as sources."
                    .to_owned(),
            ),
            project_folder: None,
            chat_history_length: 8,
            show_tray_icon: true,
            global_hotkey: "CmdOrCtrl+Shift+H".to_owned(),
            permission_settings: PermissionSettings {
                auto_approval_enabled: true,
                granular_permissions,
                max_requests: 25,
                max_cost_cents: 100,
            },
        }
    }
}

/// Knows where the settings file lives; the file itself is read and written
/// outside the library.
#[derive(Debug)]
pub struct SettingsManager {
    pub settings_path: String,
}

impl SettingsManager {
    pub fn new(settings_path: String) -> (r: SettingsManager)
        ensures
            r.settings_path@ == settings_path@,
    {
        SettingsManager { settings_path }
    }
}

} // verus!
