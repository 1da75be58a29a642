use vstd::prelude::*;
use vstd::utf8::encode_utf8;

verus! {

/// Every kind of log line.
#[derive(Clone, Copy, Debug, PartialEq, Eq, Structural)]
pub enum LogKind {
    ClientBegin,
    ClientConnect,
    ClientDisconnect,
    ClientUserinfoChanged,
    Exit,
    InitGame,
    Item,
    Kill,
    Say,
    Score,
    ShutdownGame,
    /// A run of `-`.
    Dashline,
    /// `red:N blue:M`
    CtfScore,
}

impl LogKind {
    /// The text that opens a line of this kind; for a dashline, its first
    /// dash.
    pub open spec fn tag(self) -> Seq<char> {
        match self {
            LogKind::ClientBegin => "ClientBegin:"@,
            LogKind::ClientConnect => "ClientConnect:"@,
            LogKind::ClientDisconnect => "ClientDisconnect:"@,
            LogKind::ClientUserinfoChanged => "ClientUserinfoChanged:"@,
            LogKind::Exit => "Exit:"@,
            LogKind::InitGame => "InitGame:"@,
            LogKind::Item => "Item:"@,
            LogKind::Kill => "Kill:"@,
            LogKind::Say => "say:"@,
            LogKind::Score => "score:"@,
            LogKind::ShutdownGame => "ShutdownGame:"@,
            LogKind::Dashline => "-"@,
            LogKind::CtfScore => "red:"@,
        }
    }

    pub open spec fn tag_bytes(self) -> Seq<u8> {
        encode_utf8(self.tag())
    }

    pub fn tag_str(self) -> (r: &'static str)
        ensures
            r@ == self.tag(),
    {
        match self {
            LogKind::ClientBegin => "ClientBegin:",
            LogKind::ClientConnect => "ClientConnect:",
            LogKind::ClientDisconnect => "ClientDisconnect:",
            LogKind::ClientUserinfoChanged => "ClientUserinfoChanged:",
            LogKind::Exit => "Exit:",
            LogKind::InitGame => "InitGame:",
            LogKind::Item => "Item:",
            LogKind::Kill => "Kill:",
            LogKind::Say => "say:",
            LogKind::Score => "score:",
            LogKind::ShutdownGame => "ShutdownGame:",
            LogKind::Dashline => "-",
            LogKind::CtfScore => "red:",
        }
    }
}

} // verus!
