//! The settings the dashboard exposes, in their menu order, with their
//! labels and which of them are simple toggles.
use vstd::prelude::*;
use vstd::string::*;

verus! {

#[derive(Debug, Clone, Copy, PartialEq, Eq, Structural)]
pub enum SettingsItem {
    Token,
    Channels,
    RollCommands,
    Cooldown,
    AutoRoll,
    AutoKakera,
    AutoDaily,
    Wishlist,
    FuzzyMatch,
}

impl SettingsItem {
    /// Every settings row, in menu order.
    pub fn all() -> (r: Vec<SettingsItem>)
        ensures
            r@ =~= seq![
                SettingsItem::Token,
                SettingsItem::Channels,
                SettingsItem::RollCommands,
                SettingsItem::Cooldown,
                SettingsItem::AutoRoll,
                SettingsItem::AutoKakera,
                SettingsItem::AutoDaily,
                SettingsItem::Wishlist,
                SettingsItem::FuzzyMatch,
            ],
    {
        let mut r: Vec<SettingsItem> = Vec::new();
        r.push(SettingsItem::Token);
        r.push(SettingsItem::Channels);
        r.push(SettingsItem::RollCommands);
        r.push(SettingsItem::Cooldown);
        r.push(SettingsItem::AutoRoll);
        r.push(SettingsItem::AutoKakera);
        r.push(SettingsItem::AutoDaily);
        r.push(SettingsItem::Wishlist);
        r.push(SettingsItem::FuzzyMatch);
        r
    }

    /// The row's label text.
    pub fn label(&self) -> (r: &'static str)
        ensures
            r@ == (match *self {
                SettingsItem::Token => "Discord Token"@,
                SettingsItem::Channels => "Channel IDs"@,
                SettingsItem::RollCommands => "Roll Commands"@,
                SettingsItem::Cooldown => "Roll Cooldown (seconds)"@,
                SettingsItem::AutoRoll => "Auto Roll"@,
                SettingsItem::AutoKakera => "Auto Kakera React"@,
                SettingsItem::AutoDaily => "Auto Daily"@,
                SettingsItem::Wishlist => "Wishlist Enabled"@,
                SettingsItem::FuzzyMatch => "Fuzzy Match"@,
            }),
    {
        match self {
            SettingsItem::Token => "Discord Token",
            SettingsItem::Channels => "Channel IDs",
            SettingsItem::RollCommands => "Roll Commands",
            SettingsItem::Cooldown => "Roll Cooldown (seconds)",
            SettingsItem::AutoRoll => "Auto Roll",
            SettingsItem::AutoKakera => "Auto Kakera React",
            SettingsItem::AutoDaily => "Auto Daily",
            SettingsItem::Wishlist => "Wishlist Enabled",
            SettingsItem::FuzzyMatch => "Fuzzy Match",
        }
    }

    /// Whether selecting the row flips a flag rather than opening an editor.
    pub fn is_toggle(&self) -> (r: bool)
        ensures
            r == (*self is AutoRoll || *self is AutoKakera || *self is AutoDaily
                || *self is Wishlist || *self is FuzzyMatch),
    {
        match self {
            SettingsItem::AutoRoll | SettingsItem::AutoKakera | SettingsItem::AutoDaily
                | SettingsItem::Wishlist | SettingsItem::FuzzyMatch => true,
            _ => false,
        }
    }
}

} // verus!
