//! Single-instance rules for the two kinds of processes.

use vstd::prelude::*;

verus! {

broadcast use vstd::string::group_string_axioms;

/// The kind of process being started.
#[derive(Clone, Copy, Debug, PartialEq, Eq, Structural)]
pub enum InstanceType {
    /// The tray application.
    Background,
    /// The settings window.
    SettingsUI,
}

/// What to do when another instance is already running.
#[derive(Clone, Debug)]
pub enum ExistingInstance {
    /// Restore the existing window with this title and bring it to the
    /// foreground.
    RestoreWindow { title: String },
    /// Ask the existing tray window (of this class) to open the settings.
    OpenSettingsFromTray { tray_class: String },
}

impl InstanceType {
    pub open spec fn mutex_name_spec(self) -> Seq<char> {
        match self {
            InstanceType::SettingsUI => "Global\\WinGlide_SettingsUIMutex"@,
            InstanceType::Background => "Global\\WinGlide_BackgroundMutex"@,
        }
    }

    /// Name of the system-wide mutex that marks a running instance.
    pub fn mutex_name(&self) -> (r: String)
        ensures
            r@ == self.mutex_name_spec(),
    {
        match self {
            InstanceType::SettingsUI => String::from_str("Global\\WinGlide_SettingsUIMutex"),
            InstanceType::Background => String::from_str("Global\\WinGlide_BackgroundMutex"),
        }
    }

    /// How to hand over to an instance that is already running: the
    /// settings window is brought to the front, the tray application is
    /// asked to open the settings.
    pub fn on_existing_instance(&self) -> (r: ExistingInstance)
        ensures
            *self == InstanceType::SettingsUI ==> (r matches ExistingInstance::RestoreWindow { title }
                && title@ == "WinGlide"@),
            *self == InstanceType::Background ==> (r matches ExistingInstance::OpenSettingsFromTray {
                tray_class,
            } && tray_class@ == "WinGlideTray"@),
    {
        match self {
            InstanceType::SettingsUI => ExistingInstance::RestoreWindow {
                title: String::from_str("WinGlide"),
            },
            InstanceType::Background => ExistingInstance::OpenSettingsFromTray {
                tray_class: String::from_str("WinGlideTray"),
            },
        }
    }
}

/// Whether this process may run: only when no instance of its kind held
/// the mutex already.
pub fn is_single_instance(mutex_already_existed: bool) -> (r: bool)
    ensures
        r == !mutex_already_existed,
{
    !mutex_already_existed
}

} // verus!
