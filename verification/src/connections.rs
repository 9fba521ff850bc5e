//! Connections in the sidebar and the dialog that adds one.

use vstd::prelude::*;

verus! {

/// The colour tag of a connection.
#[derive(Debug, Clone, Copy, PartialEq, Eq, Structural)]
pub enum ConnectionColor {
    NoColor,
    Red,
    Orange,
    Green,
    Blue,
    Purple,
}

impl Default for ConnectionColor {
    fn default() -> (r: Self)
        ensures
            r == ConnectionColor::NoColor,
    {
        ConnectionColor::NoColor
    }
}

/// The name shown for a colour tag.
pub open spec fn color_name(c: ConnectionColor) -> Seq<char> {
    match c {
        ConnectionColor::NoColor => "No color"@,
        ConnectionColor::Red => "Red"@,
        ConnectionColor::Orange => "Orange"@,
        ConnectionColor::Green => "Green"@,
        ConnectionColor::Blue => "Blue"@,
        ConnectionColor::Purple => "Purple"@,
    }
}

/// The RGB components of a tag colour.
pub open spec fn tag_rgb(c: ConnectionColor) -> Seq<u8> {
    match c {
        ConnectionColor::Red => seq![0xc0u8, 0x39u8, 0x2bu8],
        ConnectionColor::Orange => seq![0xe6u8, 0x7eu8, 0x22u8],
        ConnectionColor::Green => seq![0x27u8, 0xaeu8, 0x60u8],
        ConnectionColor::Blue => seq![0x29u8, 0x80u8, 0xb9u8],
        ConnectionColor::Purple => seq![0x8eu8, 0x44u8, 0xadu8],
        ConnectionColor::NoColor => Seq::empty(),
    }
}

impl ConnectionColor {
    /// Every colour tag, `None` first.
    pub fn all() -> (r: &'static [ConnectionColor])
        ensures
            r@ == seq![
                ConnectionColor::NoColor,
                ConnectionColor::Red,
                ConnectionColor::Orange,
                ConnectionColor::Green,
                ConnectionColor::Blue,
                ConnectionColor::Purple,
            ],
    {
        let r: &'static [ConnectionColor] = &[
            ConnectionColor::NoColor,
            ConnectionColor::Red,
            ConnectionColor::Orange,
            ConnectionColor::Green,
            ConnectionColor::Blue,
            ConnectionColor::Purple,
        ];
        assert(r@ =~= seq![
            ConnectionColor::NoColor,
            ConnectionColor::Red,
            ConnectionColor::Orange,
            ConnectionColor::Green,
            ConnectionColor::Blue,
            ConnectionColor::Purple,
        ]);
        r
    }

    /// The name shown for the colour tag.
    pub fn to_string(&self) -> (r: String)
        ensures
            r@ == color_name(*self),
    {
        match self {
            ConnectionColor::NoColor => "No color".to_string(),
            ConnectionColor::Red => "Red".to_string(),
            ConnectionColor::Orange => "Orange".to_string(),
            ConnectionColor::Green => "Green".to_string(),
            ConnectionColor::Blue => "Blue".to_string(),
            ConnectionColor::Purple => "Purple".to_string(),
        }
    }

    /// The RGB colour of the tag; `NoColor` has none.
    pub fn rgb(self) -> (r: Option<[u8; 3]>)
        ensures
            (r is None) == (self == ConnectionColor::NoColor),
            r matches Some(c) ==> c@ == tag_rgb(self),
    {
        match self {
            ConnectionColor::NoColor => None,
            ConnectionColor::Red => Some([0xc0, 0x39, 0x2b]),
            ConnectionColor::Orange => Some([0xe6, 0x7e, 0x22]),
            ConnectionColor::Green => Some([0x27, 0xae, 0x60]),
            ConnectionColor::Blue => Some([0x29, 0x80, 0xb9]),
            ConnectionColor::Purple => Some([0x8e, 0x44, 0xad]),
        }
    }
}

/// A connection as the sidebar lists it.
#[derive(Debug, Clone)]
pub struct ConnectionItem {
    pub id: usize,
    pub label: String,
    pub topology: String,
    pub uri: String,
    pub proxy_port: u16,
    pub color: ConnectionColor,
    pub active: bool,
    pub live: bool,
    pub shell_version: String,
}

/// What the connections panel and its dialog ask for.
#[derive(Debug)]
pub enum ConnectionsMsg {
    Select(usize),
    Add,
    DialogUriChanged(String),
    DialogNameChanged(String),
    DialogColorChanged(ConnectionColor),
    DialogConnect,
    DialogConnectResult(Result<u16, String>),
    DialogCopyUri,
    DialogBack,
    DialogDone,
    DialogCancel,
    DialogNoop,
}

impl Clone for ConnectionsMsg {
    fn clone(&self) -> (r: Self)
        ensures
            r == *self,
    {
        match self {
            ConnectionsMsg::Select(id) => ConnectionsMsg::Select(*id),
            ConnectionsMsg::Add => ConnectionsMsg::Add,
            ConnectionsMsg::DialogUriChanged(s) => ConnectionsMsg::DialogUriChanged(s.clone()),
            ConnectionsMsg::DialogNameChanged(s) => ConnectionsMsg::DialogNameChanged(s.clone()),
            ConnectionsMsg::DialogColorChanged(c) => ConnectionsMsg::DialogColorChanged(*c),
            ConnectionsMsg::DialogConnect => ConnectionsMsg::DialogConnect,
            ConnectionsMsg::DialogConnectResult(res) => ConnectionsMsg::DialogConnectResult(
                match res {
                    Ok(port) => Ok(*port),
                    Err(e) => Err(e.clone()),
                },
            ),
            ConnectionsMsg::DialogCopyUri => ConnectionsMsg::DialogCopyUri,
            ConnectionsMsg::DialogBack => ConnectionsMsg::DialogBack,
            ConnectionsMsg::DialogDone => ConnectionsMsg::DialogDone,
            ConnectionsMsg::DialogCancel => ConnectionsMsg::DialogCancel,
            ConnectionsMsg::DialogNoop => ConnectionsMsg::DialogNoop,
        }
    }
}

/// The step the add-connection dialog is at.
#[derive(Debug, Clone, Copy, PartialEq, Eq, Structural)]
pub enum DialogStep {
    Step1 { connecting: bool },
    Step2,
}

/// The add-connection dialog.
#[derive(Debug, Clone)]
pub struct ConnectionDialogState {
    pub step: DialogStep,
    pub uri: String,
    pub name: String,
    pub color: ConnectionColor,
    pub error: Option<String>,
    pub proxy_port: u16,
}

impl ConnectionDialogState {
    /// A dialog at its first step, idle, offering the local server.
    pub fn new() -> (r: Self)
        ensures
            r.step == (DialogStep::Step1 { connecting: false }),
            r.uri@ == "mongodb://localhost:27017/"@,
            r.name@.len() == 0,
            r.color == ConnectionColor::NoColor,
            r.error is None,
            r.proxy_port == 0,
    {
        ConnectionDialogState {
            step: DialogStep::Step1 { connecting: false },
            uri: "mongodb://localhost:27017/".to_string(),
            name: String::new(),
            color: ConnectionColor::NoColor,
            error: None,
            proxy_port: 0,
        }
    }
}

} // verus!
