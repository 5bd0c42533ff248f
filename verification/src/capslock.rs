//! Caps Lock as a layout switch: a press of the configured key sends the
//! system layout-switch hotkey instead, unless paused, excluded for the
//! program, or pressed with modifiers.
use vstd::prelude::*;

use crate::config::{CapsLockConfig, ModuleId, RealCapsCombo};
use crate::exclusions::{is_module_excluded, module_excluded, ExclusionsConfig};
use crate::keyboard_hook::ModifierState;
use crate::keys::{key_name_to_vk, key_name_vk, VK_CAPITAL};
use crate::autoreplace::opt_view;

verus! {

/// The Caps Lock settings in force.
#[derive(Debug, Clone, Copy, PartialEq, Eq)]
pub struct RuntimeSettings {
    pub real_caps_combo: RealCapsCombo,
    /// Virtual-key code of the configured switch key; `None` when its name
    /// is unknown (the switch is then off).
    pub switch_key_vk: Option<u32>,
    pub paused: bool,
}

pub open spec fn resolved_key(name: Seq<char>) -> Option<u32> {
    match key_name_vk(name) {
        Some(vk) => Some(vk as u32),
        None => None,
    }
}

/// The key code of the configured switch key name.
pub fn resolve_switch_key(name: &str) -> (res: Option<u32>)
    ensures
        res == resolved_key(name@),
{
    match key_name_to_vk(name) {
        Some(vk) => Some(vk as u32),
        None => None,
    }
}

/// The settings in force after `configure(config)`.
pub fn configure(config: &CapsLockConfig) -> (res: RuntimeSettings)
    ensures
        res.real_caps_combo == config.real_caps_combo,
        res.switch_key_vk == resolved_key(config.switch_key@),
        res.paused == config.paused,
{
    RuntimeSettings {
        real_caps_combo: config.real_caps_combo,
        switch_key_vk: resolve_switch_key(config.switch_key.as_str()),
        paused: config.paused,
    }
}

/// The key code of the configured switch key, if its name is known.
pub fn switch_key_vk(settings: &RuntimeSettings) -> (res: Option<u32>)
    ensures
        res == settings.switch_key_vk,
{
    settings.switch_key_vk
}

/// Pauses or resumes the switch.
pub fn set_paused(settings: &mut RuntimeSettings, paused: bool)
    ensures
        final(settings).paused == paused,
        final(settings).real_caps_combo == old(settings).real_caps_combo,
        final(settings).switch_key_vk == old(settings).switch_key_vk,
{
    settings.paused = paused;
}

/// Whether the held modifiers are the combination that lets Caps Lock act
/// as itself.
pub open spec fn real_caps_spec(combo: RealCapsCombo, modifiers: ModifierState) -> bool {
    match combo {
        RealCapsCombo::ShiftCaps => modifiers.shift,
        RealCapsCombo::AltCaps => modifiers.alt,
        RealCapsCombo::CtrlCaps => modifiers.ctrl,
    }
}

pub fn is_real_caps_combo(combo: RealCapsCombo, modifiers: ModifierState) -> (res: bool)
    ensures
        res == real_caps_spec(combo, modifiers),
{
    match combo {
        RealCapsCombo::ShiftCaps => modifiers.shift,
        RealCapsCombo::AltCaps => modifiers.alt,
        RealCapsCombo::CtrlCaps => modifiers.ctrl,
    }
}

/// Whether a press of the switch key is taken over (and the layout-switch
/// hotkey sent): not when paused, not when the module is off for the
/// program, not when Caps Lock is the switch key and the real Caps Lock
/// combination is held, and not when any modifier is held.
pub open spec fn switches_layout(
    settings: RuntimeSettings,
    exclusions: ExclusionsConfig,
    modifiers: ModifierState,
    process_name: Option<Seq<char>>,
) -> bool {
    &&& !settings.paused
    &&& !module_excluded(exclusions, ModuleId::CapsLock, process_name)
    &&& !(settings.switch_key_vk == Some(VK_CAPITAL as u32) && real_caps_spec(
        settings.real_caps_combo,
        modifiers,
    ))
    &&& !(modifiers.shift || modifiers.ctrl || modifiers.alt || modifiers.win)
}

/// Handles a press of the switch key; `true` means the key is swallowed and
/// the layout-switch hotkey (`keys::layout_switch_inputs`) is to be sent.
pub fn handle_caps_lock_keydown(
    settings: &RuntimeSettings,
    exclusions: &ExclusionsConfig,
    modifiers: ModifierState,
    process_name: Option<&str>,
) -> (res: bool)
    ensures
        res == switches_layout(*settings, *exclusions, modifiers, opt_view(process_name)),
{
    if settings.paused {
        return false;
    }
    if is_module_excluded(exclusions, ModuleId::CapsLock, process_name) {
        return false;
    }
    if settings.switch_key_vk == Some(VK_CAPITAL as u32) && is_real_caps_combo(
        settings.real_caps_combo,
        modifiers,
    ) {
        return false;
    }
    if modifiers.any() {
        return false;
    }
    true
}

/// Law: while paused, no press is taken over.
pub proof fn paused_never_switches(
    settings: RuntimeSettings,
    exclusions: ExclusionsConfig,
    modifiers: ModifierState,
    process_name: Option<Seq<char>>,
)
    requires
        settings.paused,
    ensures
        !switches_layout(settings, exclusions, modifiers, process_name),
{
}

/// Law: while not paused, a press of the switch key is taken over exactly
/// when the module is on for the program and no modifier is held (the real
/// Caps Lock combination needs a modifier, so it adds nothing).
pub proof fn unpaused_switches_without_modifiers(
    settings: RuntimeSettings,
    exclusions: ExclusionsConfig,
    modifiers: ModifierState,
    process_name: Option<Seq<char>>,
)
    requires
        !settings.paused,
    ensures
        switches_layout(settings, exclusions, modifiers, process_name) == (!module_excluded(
            exclusions,
            ModuleId::CapsLock,
            process_name,
        ) && !(modifiers.shift || modifiers.ctrl || modifiers.alt || modifiers.win)),
{
}

/// Law: the switch key in force is the code of the configured key name
/// (`None`, the switch off, when the name is unknown) however often the
/// switch was paused or resumed since `configure`; so is the real Caps Lock
/// combination.
pub proof fn switch_key_survives_pausing(
    config: CapsLockConfig,
    configured: RuntimeSettings,
    paused: Seq<bool>,
    states: Seq<RuntimeSettings>,
)
    requires
        configured.real_caps_combo == config.real_caps_combo,
        configured.switch_key_vk == resolved_key(config.switch_key@),
        states.len() == paused.len() + 1,
        states[0] == configured,
        forall|i: int|
            0 <= i < paused.len() ==> {
                &&& (#[trigger] states[i + 1]).paused == paused[i]
                &&& states[i + 1].real_caps_combo == states[i].real_caps_combo
                &&& states[i + 1].switch_key_vk == states[i].switch_key_vk
            },
    ensures
        states.last().switch_key_vk == resolved_key(config.switch_key@),
        states.last().real_caps_combo == config.real_caps_combo,
    decreases paused.len(),
{
    if paused.len() > 0 {
        let n = paused.len() - 1;
        switch_key_survives_pausing(config, configured, paused.take(n), states.take(n + 1));
        assert(states.take(n + 1).last() == states[n]);
        assert(states[n + 1] == states.last());
    }
}

impl Default for RuntimeSettings {
    /// The settings of the default configuration: Shift+Caps Lock for the
    /// real Caps Lock, Caps Lock as the switch key, not paused.
    fn default() -> (res: Self)
        ensures
            res.real_caps_combo == RealCapsCombo::ShiftCaps,
            res.switch_key_vk == Some(VK_CAPITAL as u32),
            !res.paused,
    {
        let config = CapsLockConfig::default();
        proof {
            crate::keys::lemma_capslock_name();
        }
        configure(&config)
    }
}

} // verus!
