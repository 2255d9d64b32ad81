//! The appearance preference and the names under which theme operations
//! are logged.
use vstd::prelude::*;

verus! {

/// Light or dark appearance, or following the system.
#[derive(Debug, Clone, Copy, PartialEq, Eq, Structural)]
pub enum ThemePreference {
    System,
    Light,
    Dark,
}

impl Default for ThemePreference {
    fn default() -> (p: Self)
        ensures
            p == ThemePreference::System,
    {
        ThemePreference::System
    }
}

/// Why the front end applied a theme.
#[derive(Debug, Clone, Copy, PartialEq, Eq, Structural)]
pub enum ThemeAction {
    Initialize,
    Change,
}

/// The theme actually shown.
#[derive(Debug, Clone, Copy, PartialEq, Eq, Structural)]
pub enum EffectiveTheme {
    Light,
    Dark,
}

#[derive(Debug, Clone, Copy, PartialEq, Eq, Structural)]
pub enum ThemeTerminalResult {
    Passed,
    Failed,
}

#[derive(Debug, Clone, Copy, PartialEq, Eq, Structural)]
pub enum ThemeResultReason {
    Applied,
    PreferenceLoadFailed,
    NativeApplyFailed,
    ApplyOrSaveFailed,
}

pub fn theme_preference_name(preference: ThemePreference) -> (s: &'static str)
    ensures
        s@ == match preference {
            ThemePreference::System => "system"@,
            ThemePreference::Light => "light"@,
            ThemePreference::Dark => "dark"@,
        },
{
    match preference {
        ThemePreference::System => "system",
        ThemePreference::Light => "light",
        ThemePreference::Dark => "dark",
    }
}

pub fn theme_action_name(action: ThemeAction) -> (s: &'static str)
    ensures
        s@ == match action {
            ThemeAction::Initialize => "initialize"@,
            ThemeAction::Change => "change"@,
        },
{
    match action {
        ThemeAction::Initialize => "initialize",
        ThemeAction::Change => "change",
    }
}

pub fn effective_theme_name(theme: EffectiveTheme) -> (s: &'static str)
    ensures
        s@ == match theme {
            EffectiveTheme::Light => "light"@,
            EffectiveTheme::Dark => "dark"@,
        },
{
    match theme {
        EffectiveTheme::Light => "light",
        EffectiveTheme::Dark => "dark",
    }
}

pub fn theme_terminal_result_name(result: ThemeTerminalResult) -> (s: &'static str)
    ensures
        s@ == match result {
            ThemeTerminalResult::Passed => "passed"@,
            ThemeTerminalResult::Failed => "failed"@,
        },
{
    match result {
        ThemeTerminalResult::Passed => "passed",
        ThemeTerminalResult::Failed => "failed",
    }
}

pub fn theme_result_reason_name(reason: ThemeResultReason) -> (s: &'static str)
    ensures
        s@ == match reason {
            ThemeResultReason::Applied => "applied"@,
            ThemeResultReason::PreferenceLoadFailed => "preference_load_failed"@,
            ThemeResultReason::NativeApplyFailed => "native_apply_failed"@,
            ThemeResultReason::ApplyOrSaveFailed => "apply_or_save_failed"@,
        },
{
    match reason {
        ThemeResultReason::Applied => "applied",
        ThemeResultReason::PreferenceLoadFailed => "preference_load_failed",
        ThemeResultReason::NativeApplyFailed => "native_apply_failed",
        ThemeResultReason::ApplyOrSaveFailed => "apply_or_save_failed",
    }
}

} // verus!
