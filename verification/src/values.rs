//! The small enumerations exchanged with CEF, and their C codes.
use vstd::prelude::*;

verus! {

/// The type of a value in a CEF list.
#[derive(Debug, Clone, Copy, PartialEq, Eq, Structural)]
pub enum ValueType {
    Invalid,
    Null,
    Bool,
    Integer,
    Double,
    String,
    Binary,
    Dictionary,
    List,
}

/// The value type that CEF's code `value` (`cef_value_type_t`) stands for;
/// unknown codes are invalid.
pub open spec fn value_type_of(value: i32) -> ValueType {
    if value == 1 {
        ValueType::Null
    } else if value == 2 {
        ValueType::Bool
    } else if value == 3 {
        ValueType::Integer
    } else if value == 4 {
        ValueType::Double
    } else if value == 5 {
        ValueType::String
    } else if value == 6 {
        ValueType::Binary
    } else if value == 7 {
        ValueType::Dictionary
    } else if value == 8 {
        ValueType::List
    } else {
        ValueType::Invalid
    }
}

impl ValueType {
    /// Reads CEF's code for a value type.
    pub fn from(value: i32) -> (t: ValueType)
        ensures
            t == value_type_of(value),
    {
        match value {
            1 => ValueType::Null,
            2 => ValueType::Bool,
            3 => ValueType::Integer,
            4 => ValueType::Double,
            5 => ValueType::String,
            6 => ValueType::Binary,
            7 => ValueType::Dictionary,
            8 => ValueType::List,
            _ => ValueType::Invalid,
        }
    }
}

/// A CEF process.
#[derive(Debug, Clone, Copy, PartialEq, Eq, Structural)]
pub enum ProcessId {
    /// No known process.
    NoProcess,
    Browser,
    Renderer,
}

impl ProcessId {
    /// CEF's code for the process (`cef_process_id_t`); no process is sent as the
    /// browser process.
    pub fn into(self) -> (code: i32)
        ensures
            code == (match self {
                ProcessId::Renderer => 1i32,
                _ => 0i32,
            }),
    {
        match self {
            ProcessId::NoProcess => 0,
            ProcessId::Browser => 0,
            ProcessId::Renderer => 1,
        }
    }

    /// The process that CEF's code stands for; unknown codes give no process.
    pub fn from(val: i32) -> (p: ProcessId)
        ensures
            p == (if val == 0 {
                ProcessId::Browser
            } else if val == 1 {
                ProcessId::Renderer
            } else {
                ProcessId::NoProcess
            }),
    {
        match val {
            0 => ProcessId::Browser,
            1 => ProcessId::Renderer,
            _ => ProcessId::NoProcess,
        }
    }
}

/// What a paint covers: the page, or a popup over it.
#[derive(Debug, Clone, Copy, PartialEq, Eq, Structural)]
pub enum PaintElement {
    Popup,
    View,
}

impl PaintElement {
    /// The element that CEF's code (`cef_paint_element_type_t`) stands for:
    /// the view for its code, a popup for any other.
    pub fn from(paint: i32) -> (e: PaintElement)
        ensures
            e == (if paint == 0 { PaintElement::View } else { PaintElement::Popup }),
    {
        if paint == 0 {
            PaintElement::View
        } else {
            PaintElement::Popup
        }
    }

    /// CEF's code for the element.
    pub fn into(self) -> (code: i32)
        ensures
            code == (match self {
                PaintElement::View => 0i32,
                PaintElement::Popup => 1i32,
            }),
    {
        match self {
            PaintElement::View => 0,
            PaintElement::Popup => 1,
        }
    }
}

/// Reading back a code that came from an element gives the element.
pub proof fn law_paint_element_round_trip(e: PaintElement)
    ensures
        (if (match e {
            PaintElement::View => 0i32,
            PaintElement::Popup => 1i32,
        }) == 0 {
            PaintElement::View
        } else {
            PaintElement::Popup
        }) == e,
{
}

/// Reading back the code of the browser or renderer process gives that process.
pub proof fn law_process_id_round_trip(p: ProcessId)
    requires
        p != ProcessId::NoProcess,
    ensures
        (if (match p {
            ProcessId::Renderer => 1i32,
            _ => 0i32,
        }) == 0 {
            ProcessId::Browser
        } else {
            ProcessId::Renderer
        }) == p,
{
}

/// Work that CEF runs on one of its threads.
pub trait Task {
    fn execute(&self);
}

/// Hooks of the browser process; by default they do nothing.
pub trait BrowserProcessHandler {
    fn on_context_initialized(&self) {
    }
}

} // verus!
