//! Remote operations that a control can be mapped to.

use vstd::prelude::*;

verus! {

/// How a volume action picks its level.
#[derive(Clone, Copy, Debug, PartialEq, Eq, Structural)]
pub enum Volume {
    /// The triggering raw value, read as a fraction of 127.
    Pass,
    /// A fixed level in percent.
    Value(u8),
}

/// A remote operation, each naming the scene, input or scene item it targets.
#[derive(Debug, PartialEq, Eq)]
pub enum Action {
    SetScene { name: String },
    SetVolume { name: String, value: Volume },
    ToggleInput { name: String },
    EnableSceneItem { name: String },
    DisableSceneItem { name: String },
    ToggleSceneItem { name: String },
}

/// A control-change mapping entry: an action for one raw value (`on`), or the
/// control's default action when `on` is absent.
#[derive(Debug, PartialEq, Eq)]
pub struct ConditionalAction {
    pub on: Option<u8>,
    pub action: Action,
}

/// The character of a decimal digit `d < 10`.
pub open spec fn digit_char(d: nat) -> char {
    if d == 0 {
        '0'
    } else if d == 1 {
        '1'
    } else if d == 2 {
        '2'
    } else if d == 3 {
        '3'
    } else if d == 4 {
        '4'
    } else if d == 5 {
        '5'
    } else if d == 6 {
        '6'
    } else if d == 7 {
        '7'
    } else if d == 8 {
        '8'
    } else {
        '9'
    }
}

/// The decimal notation of `n`, without leading zeros.
pub open spec fn decimal(n: nat) -> Seq<char>
    decreases n,
{
    if n < 10 {
        seq![digit_char(n)]
    } else {
        decimal(n / 10).push(digit_char(n % 10))
    }
}

/// How a volume level reads in a description.
pub open spec fn volume_text(v: Volume) -> Seq<char> {
    match v {
        Volume::Pass => "input value"@,
        Volume::Value(p) => decimal(p as nat),
    }
}

/// The human-readable description of an action.
pub open spec fn description(a: Action) -> Seq<char> {
    match a {
        Action::SetScene { name } => "set current scene to "@ + name@,
        Action::SetVolume { name, value } => "set volume of "@ + name@ + " to "@ + volume_text(
            value,
        ),
        Action::ToggleInput { name } => "toggle input "@ + name@,
        Action::EnableSceneItem { name } => "enable scene item "@ + name@,
        Action::DisableSceneItem { name } => "disable scene item "@ + name@,
        Action::ToggleSceneItem { name } => "toggle scene item "@ + name@,
    }
}

fn digit_str(d: u8) -> (r: &'static str)
    requires
        d < 10,
    ensures
        r@ == seq![digit_char(d as nat)],
{
    proof {
        reveal_strlit("0");
        reveal_strlit("1");
        reveal_strlit("2");
        reveal_strlit("3");
        reveal_strlit("4");
        reveal_strlit("5");
        reveal_strlit("6");
        reveal_strlit("7");
        reveal_strlit("8");
        reveal_strlit("9");
    }
    if d == 0 {
        "0"
    } else if d == 1 {
        "1"
    } else if d == 2 {
        "2"
    } else if d == 3 {
        "3"
    } else if d == 4 {
        "4"
    } else if d == 5 {
        "5"
    } else if d == 6 {
        "6"
    } else if d == 7 {
        "7"
    } else if d == 8 {
        "8"
    } else {
        "9"
    }
}

fn decimal_string(v: u8) -> (r: String)
    ensures
        r@ == decimal(v as nat),
{
    let mut s = String::new();
    if v >= 100 {
        s.append(digit_str(v / 100));
    }
    if v >= 10 {
        s.append(digit_str((v / 10) % 10));
    }
    s.append(digit_str(v % 10));
    proof {
        let n = v as nat;
        if n >= 100 {
            assert(decimal(n / 100) == seq![digit_char(n / 100)]);
            assert(decimal(n / 10) == decimal((n / 10) / 10).push(digit_char((n / 10) % 10)));
            assert((n / 10) / 10 == n / 100);
            assert(s@ =~= decimal(n));
        } else if n >= 10 {
            assert(decimal(n / 10) == seq![digit_char(n / 10)]);
            assert(s@ =~= decimal(n));
        } else {
            assert(s@ =~= decimal(n));
        }
    }
    s
}

impl Volume {
    /// How the level reads in a description.
    pub fn describe(&self) -> (r: String)
        ensures
            r@ == volume_text(*self),
    {
        match self {
            Volume::Pass => String::from_str("input value"),
            Volume::Value(v) => decimal_string(*v),
        }
    }
}

impl Action {
    /// The human-readable description of the action, for diagnostics.
    pub fn describe(&self) -> (r: String)
        ensures
            r@ == description(*self),
    {
        match self {
            Action::SetScene { name } => {
                let mut s = String::from_str("set current scene to ");
                s.append(name.as_str());
                s
            },
            Action::SetVolume { name, value } => {
                let mut s = String::from_str("set volume of ");
                s.append(name.as_str());
                s.append(" to ");
                let v = value.describe();
                s.append(v.as_str());
                s
            },
            Action::ToggleInput { name } => {
                let mut s = String::from_str("toggle input ");
                s.append(name.as_str());
                s
            },
            Action::EnableSceneItem { name } => {
                let mut s = String::from_str("enable scene item ");
                s.append(name.as_str());
                s
            },
            Action::DisableSceneItem { name } => {
                let mut s = String::from_str("disable scene item ");
                s.append(name.as_str());
                s
            },
            Action::ToggleSceneItem { name } => {
                let mut s = String::from_str("toggle scene item ");
                s.append(name.as_str());
                s
            },
        }
    }
}

} // verus!
