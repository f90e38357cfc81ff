//! The configuration of the status line: which modules it shows, in which
//! order, what separates them, and which devices are fixed in advance.

use crate::pipeline::Module;
use vstd::prelude::*;
use vstd::string::StringExecFns;

verus! {

/// What separates two fragments unless the configuration says otherwise.
pub const SEPARATOR: &'static str = " \u{b7} ";

/// The configuration of one status line.
#[derive(Clone, Debug, PartialEq, Eq)]
pub struct Config {
    /// The battery device, if it is not to be looked up.
    pub battery_name: Option<String>,
    /// The wireless device, if it is not to be looked up.
    pub wifi_device: Option<String>,
    /// What stands between two fragments.
    pub separator: String,
    /// The modules to show, in the order in which they are shown.
    pub modules: Vec<Module>,
}

/// The mathematical value of a [`Config`].
pub struct ConfigView {
    pub battery_name: Option<Seq<char>>,
    pub wifi_device: Option<Seq<char>>,
    pub separator: Seq<char>,
    pub modules: Seq<Module>,
}

impl View for Config {
    type V = ConfigView;

    open spec fn view(&self) -> ConfigView {
        ConfigView {
            battery_name: self.battery_name.deep_view(),
            wifi_device: self.wifi_device.deep_view(),
            separator: self.separator@,
            modules: self.modules@,
        }
    }
}

impl Config {
    /// The configuration that looks both devices up and shows the battery,
    /// the network and the time, in this order.
    pub fn standard() -> (config: Config)
        ensures
            config@ == (ConfigView {
                battery_name: None,
                wifi_device: None,
                separator: SEPARATOR@,
                modules: seq![Module::BatteryAll, Module::Wifi, Module::Time],
            }),
    {
        let mut modules: Vec<Module> = Vec::new();
        modules.push(Module::BatteryAll);
        modules.push(Module::Wifi);
        modules.push(Module::Time);
        assert(modules@ =~= seq![Module::BatteryAll, Module::Wifi, Module::Time]);
        Config {
            battery_name: None,
            wifi_device: None,
            separator: String::from_str(SEPARATOR),
            modules,
        }
    }
}

} // verus!
