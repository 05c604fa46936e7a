//! Native clipboard history, retention, and the binary Flutter control API.
//!
//! Wayland and X11 remain the authoritative live clipboard sources. Denial
//! captures a deliberately small set of safe representations in parallel and
//! only becomes the selection owner when Flutter sets text or the user
//! explicitly activates a retained entry.

pub mod image;
pub mod mime;
pub mod content;
pub mod protocol;
pub mod history;
pub mod manager;
pub mod laws;


use vstd::prelude::*;

verus! {

pub const CONTROL_CHANNEL: &'static str = "denial/clipboard";

pub const MAX_REQUEST_BYTES: usize = 4096;

pub const MAX_QUERY_BYTES: usize = 256;

pub const MAX_MIME_BYTES: usize = 256;

pub const MAX_TEXT_BYTES: usize = 1048576;

pub const MAX_IMAGE_BYTES: usize = 16777216;

pub const MAX_ITEM_BYTES: usize = 25165824;

pub const MAX_HISTORY_BYTES: usize = 67108864;

pub const MAX_HISTORY_ITEMS: usize = 100;

pub const MAX_CAPTURE_REPRESENTATIONS: usize = 4;

pub const MAX_OFFERED_MIME_TYPES: usize = 256;

pub const MAX_SOURCE_APP_ID_BYTES: usize = 512;

pub const MAX_SOURCE_TITLE_BYTES: usize = 1024;

pub const MAX_PREVIEW_BYTES: usize = 1024;

#[derive(Clone, Copy, Debug, PartialEq, Eq, Structural)]
pub enum ClipboardOrigin {
    Wayland,
    X11,
    Flutter,
}

#[derive(Clone, Copy, Debug, PartialEq, Eq, Structural)]
pub enum ClipboardContentKind {
    Text,
    Image,
}

/// The application a selection came from, with both fields sanitised.
#[derive(Clone, Debug)]
pub struct ClipboardSourceIdentity {
    pub app_id: String,
    pub title: String,
}

#[derive(Clone, Copy, Debug, PartialEq, Eq, Structural)]
pub enum ClipboardSelection {
    Xwayland,
    History { item_id: u64 },
}

impl ClipboardSelection {
    pub fn history_item_id(self) -> (r: Option<u64>)
        ensures
            r == (match self {
                ClipboardSelection::History { item_id } => Some(item_id),
                ClipboardSelection::Xwayland => None,
            }),
    {
        match self {
            ClipboardSelection::History { item_id } => Some(item_id),
            ClipboardSelection::Xwayland => None,
        }
    }

    pub fn is_xwayland(self) -> (r: bool)
        ensures
            r == (self == ClipboardSelection::Xwayland),
    {
        match self {
            ClipboardSelection::Xwayland => true,
            ClipboardSelection::History { .. } => false,
        }
    }
}

/// One MIME type to read from an offered selection, with its size limit.
#[derive(Clone, Debug)]
pub struct CaptureRepresentation {
    pub mime_type: String,
    pub max_bytes: usize,
}

/// What the caller must read from the live selection of capture `epoch`.
#[derive(Clone, Debug)]
pub struct ClipboardCapturePlan {
    pub epoch: u64,
    pub representations: Vec<CaptureRepresentation>,
}

#[derive(Clone, Copy, Debug, PartialEq, Eq, Structural)]
pub enum ClipboardAction {
    Publish { epoch: u64, item_id: u64, paste: bool },
    Clear { epoch: u64 },
    StartDrag { item_id: u64 },
}

/// Every representation of a history entry, for a drag-and-drop source.
#[derive(Clone, Debug)]
pub struct ClipboardDragPayload {
    pub item_id: u64,
    pub representations: Vec<(String, Vec<u8>)>,
}

#[derive(Clone, Copy, Debug, PartialEq, Eq, Structural)]
pub enum ClipboardError {
    BadRequest,
    NotFound,
    Locked,
    TooLarge,
    Unsupported,
}

pub const STATUS_OK: u8 = 0;

pub const STATUS_BAD_REQUEST: u8 = 1;

pub const STATUS_NOT_FOUND: u8 = 2;

pub const STATUS_LOCKED: u8 = 3;

pub const STATUS_TOO_LARGE: u8 = 4;

pub const STATUS_UNSUPPORTED: u8 = 5;

pub open spec fn spec_status(e: ClipboardError) -> u8 {
    match e {
        ClipboardError::BadRequest => STATUS_BAD_REQUEST,
        ClipboardError::NotFound => STATUS_NOT_FOUND,
        ClipboardError::Locked => STATUS_LOCKED,
        ClipboardError::TooLarge => STATUS_TOO_LARGE,
        ClipboardError::Unsupported => STATUS_UNSUPPORTED,
    }
}

pub const MSG_BAD_REQUEST: &'static str = "Malformed clipboard request";

pub const MSG_NOT_FOUND: &'static str = "Clipboard entry not found";

pub const MSG_LOCKED: &'static str = "Clipboard history is unavailable while locked";

pub const MSG_TOO_LARGE: &'static str = "Clipboard payload exceeds its limit";

pub const MSG_UNSUPPORTED: &'static str = "Clipboard representation is unsupported";

pub open spec fn spec_message(e: ClipboardError) -> &'static str {
    match e {
        ClipboardError::BadRequest => MSG_BAD_REQUEST,
        ClipboardError::NotFound => MSG_NOT_FOUND,
        ClipboardError::Locked => MSG_LOCKED,
        ClipboardError::TooLarge => MSG_TOO_LARGE,
        ClipboardError::Unsupported => MSG_UNSUPPORTED,
    }
}

impl ClipboardError {
    /// The status byte that an error response carries.
    pub fn status(self) -> (r: u8)
        ensures
            r == spec_status(self),
    {
        match self {
            ClipboardError::BadRequest => STATUS_BAD_REQUEST,
            ClipboardError::NotFound => STATUS_NOT_FOUND,
            ClipboardError::Locked => STATUS_LOCKED,
            ClipboardError::TooLarge => STATUS_TOO_LARGE,
            ClipboardError::Unsupported => STATUS_UNSUPPORTED,
        }
    }

    /// The human-readable text that an error response carries.
    pub fn message(self) -> (r: &'static str)
        ensures
            r == spec_message(self),
    {
        match self {
            ClipboardError::BadRequest => MSG_BAD_REQUEST,
            ClipboardError::NotFound => MSG_NOT_FOUND,
            ClipboardError::Locked => MSG_LOCKED,
            ClipboardError::TooLarge => MSG_TOO_LARGE,
            ClipboardError::Unsupported => MSG_UNSUPPORTED,
        }
    }
}

/// The byte limit for one representation of the given kind.
pub open spec fn spec_kind_limit(kind: ClipboardContentKind) -> usize {
    match kind {
        ClipboardContentKind::Text => MAX_TEXT_BYTES,
        ClipboardContentKind::Image => MAX_IMAGE_BYTES,
    }
}

pub fn kind_limit(kind: ClipboardContentKind) -> (r: usize)
    ensures
        r == spec_kind_limit(kind),
{
    match kind {
        ClipboardContentKind::Text => MAX_TEXT_BYTES,
        ClipboardContentKind::Image => MAX_IMAGE_BYTES,
    }
}

} // verus!
