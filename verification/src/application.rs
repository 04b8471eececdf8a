use crate::dock;
use crate::ipc::{focus_window, spawn, Request};
use vstd::prelude::*;

verus! {

/// Messages the application accepts.
#[derive(Debug)]
pub enum Input {
    FocusWindow(u64),
    LaunchApp(String),
}

impl Input {
    /// The application message for what the dock asks.
    pub fn from_dock(out: dock::Output) -> (i: Input)
        ensures
            match out {
                dock::Output::Focus(id) => i matches Input::FocusWindow(x) && x == id,
                dock::Output::Launch(cmd) => i == Input::LaunchApp(cmd),
            },
    {
        match out {
            dock::Output::Focus(x) => Input::FocusWindow(x),
            dock::Output::Launch(x) => Input::LaunchApp(x),
        }
    }
}

/// The request sent to niri for `input`: focus the window, or run the
/// command through `sh -c`.
pub fn request_for(input: Input) -> (r: Request)
    ensures
        match input {
            Input::FocusWindow(id) => r matches Request::FocusWindow { id: x } && x == id,
            Input::LaunchApp(cmd) => r matches Request::Spawn { command: argv } && argv@.len() == 3
                && argv@[0]@ == "sh"@ && argv@[1]@ == "-c"@ && argv@[2]@ == cmd@,
        },
{
    match input {
        Input::FocusWindow(id) => focus_window(id),
        Input::LaunchApp(cmd) => spawn(cmd),
    }
}

} // verus!
