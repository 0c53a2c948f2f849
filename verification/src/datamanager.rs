//! What the program remembers between runs, and which configuration it runs.

use vstd::prelude::*;

verus! {

/// The settings of the program: the configuration that ran last, and whether the system proxy is left alone.
#[derive(Debug, Clone, PartialEq)]
pub struct Settings {
    pub current: Option<String>,
    pub unable_system_proxy: Option<bool>,
}

/// What a [`Settings`] holds, with every text as its characters.
pub struct SettingsView {
    pub current: Option<Seq<char>>,
    pub unable_system_proxy: Option<bool>,
}

impl DeepView for Settings {
    type V = SettingsView;

    open spec fn deep_view(&self) -> SettingsView {
        SettingsView {
            current: self.current.deep_view(),
            unable_system_proxy: self.unable_system_proxy.deep_view(),
        }
    }
}

impl View for Settings {
    type V = SettingsView;

    open spec fn view(&self) -> SettingsView {
        self.deep_view()
    }
}

impl SettingsView {
    /// The view of what [`Settings::new`] returns.
    pub open spec fn fresh() -> SettingsView {
        SettingsView {
            current: None,
            unable_system_proxy: None,
        }
    }
}

impl Settings {
    /// Settings with nothing set.
    pub fn new() -> (r: Self)
        ensures
            r@ == SettingsView::fresh(),
    {
        Settings {
            current: None,
            unable_system_proxy: None,
        }
    }
}

/// The configuration to run, by name: the one that the caller names; else
/// the one at the number that the caller gives, counted from 1; else the
/// one that ran last; else the first of the list. None where the number is
/// out of the list, or nothing is named and the list is empty.
pub open spec fn selected(
    tag: Option<Seq<char>>,
    number: Option<u16>,
    current: Option<Seq<char>>,
    list: Seq<Seq<char>>,
) -> Option<Seq<char>> {
    match tag {
        Some(t) => Some(t),
        None => match number {
            Some(n) => if 1 <= n <= list.len() {
                Some(list[n - 1])
            } else {
                None
            },
            None => match current {
                Some(c) => Some(c),
                None => if list.len() > 0 {
                    Some(list[0])
                } else {
                    None
                },
            },
        },
    }
}

/// Picks the configuration to run, as `selected` says.
pub fn select_config(
    tag: Option<String>,
    number: Option<u16>,
    current: &Option<String>,
    list: &Vec<String>,
) -> (r: Option<String>)
    ensures
        r.deep_view() == selected(
            tag.deep_view(),
            number,
            current.deep_view(),
            list.deep_view(),
        ),
{
    match tag {
        Some(t) => Some(t),
        None => match number {
            Some(n) => {
                let n = n as usize;
                if 1 <= n && n <= list.len() {
                    assert(list.deep_view()[n - 1] == list@[n - 1]@);
                    Some(list[n - 1].clone())
                } else {
                    None
                }
            },
            None => match current {
                Some(c) => Some(c.clone()),
                None => if list.len() > 0 {
                    assert(list.deep_view()[0] == list@[0]@);
                    Some(list[0].clone())
                } else {
                    None
                },
            },
        },
    }
}

impl SettingsView {
    /// The settings after a run of the configuration `name`: it is the
    /// one that ran last, and where the system proxy is left alone the
    /// settings remember it.
    pub open spec fn after_run(self, name: Seq<char>, unable_system_proxy: bool) -> SettingsView {
        SettingsView {
            current: Some(name),
            unable_system_proxy: if unable_system_proxy {
                Some(true)
            } else {
                self.unable_system_proxy
            },
        }
    }

    /// Whether the program set the system proxy and has to unset it when it
    /// stops: not where the settings say nothing, nor where they say that
    /// the system proxy is left alone.
    pub open spec fn owns_system_proxy(self) -> bool {
        self.unable_system_proxy == Some(false)
    }
}

impl Settings {
    /// Records a run, as `after_run` says.
    pub fn record_run(&mut self, name: String, unable_system_proxy: bool)
        ensures
            final(self)@ == old(self)@.after_run(name@, unable_system_proxy),
    {
        self.current = Some(name);
        if unable_system_proxy {
            self.unable_system_proxy = Some(true);
        }
    }

    /// Whether the program has to unset the system proxy when it stops.
    pub fn owns_system_proxy(&self) -> (r: bool)
        ensures
            r == self@.owns_system_proxy(),
    {
        match self.unable_system_proxy {
            Some(false) => true,
            _ => false,
        }
    }
}

} // verus!
